//! Loading programs.
//!
//! [`ElfLoad`] decides how an ELF image and its dynamic linker are brought
//! into an address space, and [`load_result`] what the program is told of it.
//! Scripts are loaded by way of their interpreters.

use ax_memory_addr::{align_down_4k, align_up_4k};
use vstd::prelude::*;
use vstd::string::*;
use vstd::utf8::{encode_utf8, valid_utf8};
use crate::arch::Arch;
use crate::auxv::{
    has_kind, AuxEntry, AT_EGID, AT_EUID, AT_EXECFN, AT_GID, AT_HWCAP, AT_SECURE, AT_UID,
};
use crate::elf::{
    aux_vector, base_of, has_aux, image_aux, image_base, image_entry, says, segment_with, ElfImage,
};
use crate::errno::{AxError, AxResult};
use crate::exec::{lemma_texts, lemma_texts_behind, shell_args, texts};
use crate::paging::{MappingFlags, PAGE_SIZE_4K};
use crate::stack::{app_stack_region, stack_image, utf8_all};
use crate::text::{
    begins_script, interpreter_words, is_line_of, is_script, lemma_interpreter_words,
    lemma_script_line, names_interpreter, script_line, script_text, split_interpreter_line,
    terminated_text,
};

verus! {

/// The layout of user address spaces.
#[derive(Debug, Clone, Copy, PartialEq, Eq, Structural)]
pub struct UserLayout {
    /// The lowest address.
    pub space_base: usize,
    /// The size of the whole.
    pub space_size: usize,
    /// The end of the stack.
    pub stack_top: usize,
    /// The size of the stack.
    pub stack_size: usize,
    /// The beginning of the heap.
    pub heap_base: usize,
    /// The size of the heap.
    pub heap_size: usize,
    /// The page that signal handlers return through.
    pub signal_trampoline: usize,
}

/// Memory to be mapped.
#[derive(Debug, Clone, Copy, PartialEq, Eq, Structural)]
pub struct AreaMapping {
    /// Its first address.
    pub start: usize,
    /// Its size.
    pub size: usize,
    /// Its permissions.
    pub flags: MappingFlags,
    /// Whether all of it is present from the beginning.
    pub populate: bool,
}

/// The address space of a new program before anything is mapped, as its first
/// address and its size.
pub fn new_user_aspace_empty(layout: &UserLayout) -> (r: (usize, usize))
    ensures
        r == (layout.space_base, layout.space_size),
{
    (layout.space_base, layout.space_size)
}

/// The page that signal handlers return through: user code may read and
/// execute it.
pub fn map_trampoline(layout: &UserLayout) -> (r: AreaMapping)
    ensures
        r == (AreaMapping {
            start: layout.signal_trampoline,
            size: PAGE_SIZE_4K,
            flags: MappingFlags { read: true, write: false, execute: true, user: true },
            populate: true,
        }),
{
    AreaMapping {
        start: layout.signal_trampoline,
        size: PAGE_SIZE_4K,
        flags: MappingFlags { read: true, write: false, execute: true, user: true },
        populate: true,
    }
}

/// Whether a new address space is given the part of the kernel: it is where
/// there is one page table for both. On `Aarch64` and `Loongarch64` user code
/// has a page table of its own.
pub fn copy_from_kernel(arch: Arch) -> (r: bool)
    ensures
        r == (match arch {
            Arch::X86_64 | Arch::Riscv64 => true,
            Arch::Aarch64 | Arch::Loongarch64 => false,
        }),
{
    match arch {
        Arch::X86_64 | Arch::Riscv64 => true,
        Arch::Aarch64 | Arch::Loongarch64 => false,
    }
}

/// The capabilities of the processor that programs are told of on
/// `Loongarch64`: `CPUCFG`, `LAM`, `UAL`, `FPU`, `LSX` and `LASX`.
pub const LOONGARCH_HWCAP: usize = 0x3f;

/// The capabilities of the processor that programs are told of on `Riscv64`:
/// one bit for each of the letters I, M, A, F, D and C.
pub const RISCV_COMPAT_HWCAP_IMAFDC: usize = 0x112d;

/// The capabilities of the processor that programs are told of. There are none
/// on `X86_64`, where programs ask the processor, and on `Aarch64`, where what
/// matters is mandatory.
pub open spec fn hwcap(arch: Arch) -> usize {
    match arch {
        Arch::Loongarch64 => LOONGARCH_HWCAP,
        Arch::Riscv64 => RISCV_COMPAT_HWCAP_IMAFDC,
        Arch::X86_64 | Arch::Aarch64 => 0,
    }
}

/// The capabilities of the processor that programs are told of.
pub fn hwcap_value(arch: Arch) -> (r: usize)
    ensures
        r == hwcap(arch),
{
    match arch {
        Arch::Loongarch64 => LOONGARCH_HWCAP,
        Arch::Riscv64 => RISCV_COMPAT_HWCAP_IMAFDC,
        Arch::X86_64 | Arch::Aarch64 => 0,
    }
}

/// What reading the headers of a file brought.
#[derive(Debug, Clone, Copy, PartialEq, Eq, Structural)]
pub enum EntryOutcome {
    /// They were read, and the image is now remembered.
    Elf,
    /// The file is not an ELF image.
    NotElf,
    /// The file could not be read.
    Failed(AxError),
}

/// How the loading of an image ended.
#[derive(Debug, Clone, Copy, PartialEq, Eq, Structural)]
pub enum LoadEnd {
    /// It is loaded.
    Loaded,
    /// It is not an ELF image.
    NotElf,
    /// It failed.
    Failed(AxError),
}

/// What the loading of an image is waiting for.
#[derive(Debug, Clone, Copy, PartialEq, Eq, Structural)]
pub enum LoadState {
    /// Whether the program is remembered.
    LookingUpProgram,
    /// Its headers.
    ReadingProgram,
    /// That the address space holds the trampoline and nothing else.
    Clearing,
    /// Whether the program has a dynamic linker.
    FindingLinker,
    /// The path of the linker.
    ReadingLinkerPath,
    /// The file at that path.
    ResolvingLinker,
    /// Whether the linker is remembered.
    LookingUpLinker,
    /// Its headers.
    ReadingLinker,
    /// That the program is mapped; whether its linker is next.
    MappingProgram { linked: bool },
    /// That the linker is mapped.
    MappingLinker,
    /// Nothing: the loading has ended.
    Finished,
}

/// What has come of it.
#[derive(Debug, Clone, Copy, PartialEq, Eq)]
pub enum LoadEvent {
    /// Whether there is one.
    Found(bool),
    /// What reading headers brought.
    Entry(EntryOutcome),
    /// Whether it worked.
    Outcome(AxResult<()>),
}

/// What to do next.
#[derive(Debug, Clone, Copy, PartialEq, Eq, Structural)]
pub enum LoadAction {
    /// Read the headers of the program and remember them.
    ReadProgram,
    /// Remove all mappings and map the trampoline.
    ClearAndMapTrampoline,
    /// Look for the header that names the dynamic linker.
    FindLinker,
    /// Read the path of the linker, as [`interp_path`] does.
    ReadLinkerPath,
    /// Resolve that path.
    ResolveLinker,
    /// Look the linker up among the remembered images.
    LookUpLinker,
    /// Read the headers of the linker and remember them.
    ReadLinker,
    /// Map the program.
    MapProgram,
    /// Map the linker behind the program.
    MapLinker,
    /// The loading has ended.
    Return(LoadEnd),
}

/// The event is of the kind that the state waits for.
pub open spec fn load_fits(state: LoadState, event: LoadEvent) -> bool {
    match state {
        LoadState::LookingUpProgram
        | LoadState::FindingLinker
        | LoadState::LookingUpLinker => event is Found,
        LoadState::ReadingProgram | LoadState::ReadingLinker => event is Entry,
        LoadState::Clearing
        | LoadState::ReadingLinkerPath
        | LoadState::ResolvingLinker
        | LoadState::MappingProgram { .. }
        | LoadState::MappingLinker => event is Outcome,
        LoadState::Finished => false,
    }
}

/// What follows an event: what is waited for next, and what to do.
pub open spec fn load_step(state: LoadState, event: LoadEvent) -> (LoadState, LoadAction) {
    let end = |e: LoadEnd| (LoadState::Finished, LoadAction::Return(e));
    let clear = (LoadState::Clearing, LoadAction::ClearAndMapTrampoline);
    let map = |linked: bool| (LoadState::MappingProgram { linked }, LoadAction::MapProgram);
    match (state, event) {
        (_, LoadEvent::Outcome(Err(e))) => end(LoadEnd::Failed(e)),
        (_, LoadEvent::Entry(EntryOutcome::Failed(e))) => end(LoadEnd::Failed(e)),
        (LoadState::LookingUpProgram, LoadEvent::Found(found)) => if found {
            clear
        } else {
            (LoadState::ReadingProgram, LoadAction::ReadProgram)
        },
        (LoadState::ReadingProgram, LoadEvent::Entry(EntryOutcome::Elf)) => clear,
        (LoadState::ReadingProgram, LoadEvent::Entry(EntryOutcome::NotElf)) => end(LoadEnd::NotElf),
        (LoadState::Clearing, _) => (LoadState::FindingLinker, LoadAction::FindLinker),
        (LoadState::FindingLinker, LoadEvent::Found(found)) => if found {
            (LoadState::ReadingLinkerPath, LoadAction::ReadLinkerPath)
        } else {
            map(false)
        },
        (LoadState::ReadingLinkerPath, _) => (LoadState::ResolvingLinker, LoadAction::ResolveLinker),
        (LoadState::ResolvingLinker, _) => (LoadState::LookingUpLinker, LoadAction::LookUpLinker),
        (LoadState::LookingUpLinker, LoadEvent::Found(found)) => if found {
            map(true)
        } else {
            (LoadState::ReadingLinker, LoadAction::ReadLinker)
        },
        (LoadState::ReadingLinker, LoadEvent::Entry(EntryOutcome::Elf)) => map(true),
        (LoadState::ReadingLinker, LoadEvent::Entry(EntryOutcome::NotElf)) => end(
            LoadEnd::Failed(AxError::InvalidInput),
        ),
        (LoadState::MappingProgram { linked }, _) => if linked {
            (LoadState::MappingLinker, LoadAction::MapLinker)
        } else {
            end(LoadEnd::Loaded)
        },
        _ => end(LoadEnd::Loaded),
    }
}

/// The loading of an image in progress.
#[derive(Debug)]
pub struct ElfLoad {
    /// What is waited for.
    pub state: LoadState,
}

impl ElfLoad {
    /// Begins by looking the program up among the remembered images.
    pub fn new() -> (r: ElfLoad)
        ensures
            r.state == LoadState::LookingUpProgram,
    {
        ElfLoad { state: LoadState::LookingUpProgram }
    }

    /// Goes on after `event`.
    pub fn next(&mut self, event: LoadEvent) -> (action: LoadAction)
        requires
            load_fits(old(self).state, event),
        ensures
            (final(self).state, action) == load_step(old(self).state, event),
    {
        let (state, action) = match (self.state, event) {
            (_, LoadEvent::Outcome(Err(e))) => (
                LoadState::Finished,
                LoadAction::Return(LoadEnd::Failed(e)),
            ),
            (_, LoadEvent::Entry(EntryOutcome::Failed(e))) => (
                LoadState::Finished,
                LoadAction::Return(LoadEnd::Failed(e)),
            ),
            (LoadState::LookingUpProgram, LoadEvent::Found(false)) => (
                LoadState::ReadingProgram,
                LoadAction::ReadProgram,
            ),
            (LoadState::LookingUpProgram, _)
            | (LoadState::ReadingProgram, LoadEvent::Entry(EntryOutcome::Elf)) => (
                LoadState::Clearing,
                LoadAction::ClearAndMapTrampoline,
            ),
            (LoadState::ReadingProgram, _) => (
                LoadState::Finished,
                LoadAction::Return(LoadEnd::NotElf),
            ),
            (LoadState::Clearing, _) => (LoadState::FindingLinker, LoadAction::FindLinker),
            (LoadState::FindingLinker, LoadEvent::Found(true)) => (
                LoadState::ReadingLinkerPath,
                LoadAction::ReadLinkerPath,
            ),
            (LoadState::FindingLinker, _) => (
                LoadState::MappingProgram { linked: false },
                LoadAction::MapProgram,
            ),
            (LoadState::ReadingLinkerPath, _) => (
                LoadState::ResolvingLinker,
                LoadAction::ResolveLinker,
            ),
            (LoadState::ResolvingLinker, _) => (
                LoadState::LookingUpLinker,
                LoadAction::LookUpLinker,
            ),
            (LoadState::LookingUpLinker, LoadEvent::Found(false)) => (
                LoadState::ReadingLinker,
                LoadAction::ReadLinker,
            ),
            (LoadState::LookingUpLinker, _)
            | (LoadState::ReadingLinker, LoadEvent::Entry(EntryOutcome::Elf)) => (
                LoadState::MappingProgram { linked: true },
                LoadAction::MapProgram,
            ),
            (LoadState::ReadingLinker, _) => (
                LoadState::Finished,
                LoadAction::Return(LoadEnd::Failed(AxError::InvalidInput)),
            ),
            (LoadState::MappingProgram { linked: true }, _) => (
                LoadState::MappingLinker,
                LoadAction::MapLinker,
            ),
            _ => (LoadState::Finished, LoadAction::Return(LoadEnd::Loaded)),
        };
        self.state = state;
        action
    }
}

/// The path of the dynamic linker that the bytes of its segment hold.
pub fn interp_path(data: &[u8]) -> (r: AxResult<String>)
    ensures
        ({
            let terminated = data@.len() > 0 && data@.last() == 0 && forall|i: int|
                0 <= i < data@.len() - 1 ==> data@[i] != 0;
            match r {
                Ok(s) => terminated && encode_utf8(s@) == data@.drop_last(),
                Err(e) => e == AxError::InvalidInput && !(terminated && valid_utf8(
                    data@.drop_last(),
                )),
            }
        }),
{
    match terminated_text(data) {
        Some(s) => Ok(s),
        None => Err(AxError::InvalidInput),
    }
}

/// The entries of the auxiliary vector that do not depend on the image.
pub open spec fn common_aux(arch: Arch) -> Seq<AuxEntry> {
    seq![
        AuxEntry { kind: AT_HWCAP, value: hwcap(arch) },
        AuxEntry { kind: AT_UID, value: 0 },
        AuxEntry { kind: AT_EUID, value: 0 },
        AuxEntry { kind: AT_GID, value: 0 },
        AuxEntry { kind: AT_EGID, value: 0 },
        AuxEntry { kind: AT_SECURE, value: 0 },
    ]
}

/// Where a program begins that was loaded with `bias` and whose dynamic linker,
/// if it has one, was loaded with the given bias; and its auxiliary vector.
/// A program with a linker begins in the linker.
pub fn load_result(
    arch: Arch,
    program: &ElfImage,
    bias: usize,
    linker: Option<(&ElfImage, usize)>,
) -> (r: (usize, Vec<AuxEntry>))
    requires
        has_aux(program.spec_headers().header, program.spec_headers().ph@, bias),
        linker matches Some((l, b)) ==> l.spec_headers().header.entry_point as usize + base_of(
            l.spec_headers().header,
            b,
        ) <= usize::MAX,
    ensures
        ({
            let header = program.spec_headers().header;
            let ph = program.spec_headers().ph@;
            match linker {
                Some((l, b)) => {
                    let base = base_of(l.spec_headers().header, b);
                    &&& r.0 == l.spec_headers().header.entry_point as usize + base
                    &&& r.1@ == image_aux(header, ph, bias, PAGE_SIZE_4K, Some(base))
                        + common_aux(arch)
                },
                None => {
                    &&& r.0 == header.entry_point as usize + base_of(header, bias)
                    &&& r.1@ == image_aux(header, ph, bias, PAGE_SIZE_4K, None) + common_aux(arch)
                },
            }
        }),
{
    let (entry, ldso_base) = match linker {
        Some((l, b)) => {
            let header = &l.headers().header;
            (image_entry(header, b), Some(image_base(header, b)))
        },
        None => (image_entry(&program.headers().header, bias), None),
    };
    let mut auxv = aux_vector(program, bias, PAGE_SIZE_4K, ldso_base);
    let ghost image = auxv@;
    auxv.push(AuxEntry { kind: AT_HWCAP, value: hwcap_value(arch) });
    auxv.push(AuxEntry { kind: AT_UID, value: 0 });
    auxv.push(AuxEntry { kind: AT_EUID, value: 0 });
    auxv.push(AuxEntry { kind: AT_GID, value: 0 });
    auxv.push(AuxEntry { kind: AT_EGID, value: 0 });
    auxv.push(AuxEntry { kind: AT_SECURE, value: 0 });
    assert(auxv@ =~= image + common_aux(arch));
    (entry, auxv)
}

/// A file that is not an ELF image leaves the address space as it is: that is
/// found out before anything is removed or mapped.
pub proof fn law_not_elf_maps_nothing(state: LoadState, event: LoadEvent)
    requires
        load_fits(state, event),
        load_step(state, event).1 == LoadAction::Return(LoadEnd::NotElf),
    ensures
        state is ReadingProgram,
{
}

/// A program is mapped only into an address space that was cleared for it, and
/// its linker only behind it.
pub proof fn law_mapping_follows_clearing(state: LoadState, event: LoadEvent)
    requires
        load_fits(state, event),
    ensures
        load_step(state, event).1 == LoadAction::MapProgram ==> state is FindingLinker
            || state is LookingUpLinker || state is ReadingLinker,
        load_step(state, event).1 == LoadAction::MapLinker ==> state == (
        LoadState::MappingProgram { linked: true }),
        load_step(state, event).0 is FindingLinker ==> state is Clearing && (event matches
            LoadEvent::Outcome(Ok(_))),
        load_step(state, event).1 == LoadAction::Return(LoadEnd::Loaded) ==> state is MappingLinker
            || state == (LoadState::MappingProgram { linked: false }),
{
}

/// The path ends with `.sh`.
pub open spec fn is_shell_script(path: Seq<char>) -> bool {
    let n = path.len();
    n >= 3 && path[n - 3] == '.' && path[n - 2] == 's' && path[n - 1] == 'h'
}

/// The arguments with which the shell executes the program at `path`, if that
/// is a shell script by its name.
pub fn shell_redirect(path: &str, args: &Vec<String>) -> (r: Option<Vec<String>>)
    ensures
        match r {
            Some(new_args) => is_shell_script(path@) && texts(new_args@) == seq!["/bin/sh"@]
                + texts(args@),
            None => !is_shell_script(path@),
        },
{
    let n: usize = path.unicode_len();
    if n >= 3 && path.get_char(n - 3) == '.' && path.get_char(n - 2) == 's' && path.get_char(n - 1)
        == 'h' {
        Some(shell_args(args))
    } else {
        None
    }
}

/// The shell is not taken for a shell script, so it is not given to itself.
pub proof fn law_shell_is_no_shell_script()
    ensures
        !is_shell_script("/bin/sh"@),
{
    reveal_strlit("/bin/sh");
}

/// The arguments without the first.
pub open spec fn without_first(args: Seq<Seq<char>>) -> Seq<Seq<char>> {
    if args.len() > 0 {
        args.skip(1)
    } else {
        args
    }
}

/// The arguments with which the interpreter of a script is executed, when
/// `data` is the beginning of the file at `path` and the file is not an ELF
/// image: what the line after `#!` says, then the path, then the arguments of
/// the script without the first. The first of them is the interpreter.
pub fn script_args(data: &[u8], path: &str, args: &Vec<String>) -> (r: AxResult<Vec<String>>)
    ensures
        match r {
            Ok(new_args) => is_script(data@) && exists|line: Seq<char>|
                #![trigger interpreter_words(line)]
                encode_utf8(line) == script_line(data@) && texts(new_args@) == interpreter_words(
                    line,
                ) + seq![path@] + without_first(texts(args@)),
            Err(e) => if is_script(data@) {
                e == AxError::InvalidInput && !valid_utf8(script_line(data@))
            } else {
                e == AxError::InvalidExecutable
            },
        },
        r matches Ok(new_args) ==> new_args@.len() > 0,
{
    if !begins_script(data) {
        return Err(AxError::InvalidExecutable);
    }
    let line = match script_text(data) {
        Some(line) => line,
        None => {
            return Err(AxError::InvalidInput);
        },
    };
    let mut new_args = split_interpreter_line(line.as_str());
    let ghost words = interpreter_words(line@);
    assert(texts(new_args@) =~= words);
    let ghost named = new_args@;
    new_args.push(String::from_str(path));
    assert(texts(new_args@) =~= texts(named).push(path@));
    let mut i: usize = 1;
    let ghost head = words + seq![path@];
    assert(texts(new_args@) =~= head);
    if args.len() > 0 {
        assert(texts(args@).subrange(1, 1) =~= Seq::<Seq<char>>::empty());
        assert(head + Seq::<Seq<char>>::empty() =~= head);
        while i < args.len()
            invariant
                1 <= i <= args@.len(),
                texts(new_args@) == head + texts(args@).subrange(1, i as int),
            decreases args@.len() - i,
        {
            let ghost so_far = new_args@;
            let next = args[i].clone();
            assert(next@ == texts(args@)[i as int]);
            new_args.push(next);
            assert(texts(new_args@) =~= texts(so_far).push(next@));
            i = i + 1;
            assert(texts(new_args@) =~= head + texts(args@).subrange(1, i as int));
        }
        assert(texts(args@).subrange(1, i as int) =~= without_first(texts(args@)));
    } else {
        assert(texts(args@) =~= Seq::<Seq<char>>::empty());
        assert(head + without_first(texts(args@)) =~= head);
    }
    assert(new_args@.len() == texts(new_args@).len());
    Ok(new_args)
}

/// What is mapped and stored for a program besides its image.
#[derive(Debug)]
pub struct StackPlan {
    /// The stack.
    pub stack: AreaMapping,
    /// The first page of the stack that has to be present.
    pub populate_start: usize,
    /// The size of what has to be present.
    pub populate_size: usize,
    /// The stack pointer, and where the contents are stored.
    pub user_sp: usize,
    /// The initial contents of the stack.
    pub contents: Vec<u8>,
    /// The heap.
    pub heap: AreaMapping,
}

/// User code may read and write, but not execute.
pub open spec fn data_flags() -> MappingFlags {
    MappingFlags { read: true, write: true, execute: false, user: true }
}

/// What is mapped and stored for a program that is started with `args`, `envs`
/// and `auxv`, besides its image.
pub fn plan_stack(
    layout: &UserLayout,
    args: &Vec<String>,
    envs: &Vec<String>,
    auxv: &Vec<AuxEntry>,
) -> (r: StackPlan)
    requires
        layout.stack_size <= layout.stack_top,
        layout.stack_top + 4096 <= usize::MAX,
        args@.len() > 0 || has_kind(auxv@, AT_EXECFN),
        stack_image(utf8_all(args@), utf8_all(envs@), auxv@, layout.stack_top as int).len()
            <= layout.stack_top,
    ensures
        r.stack == (AreaMapping {
            start: (layout.stack_top - layout.stack_size) as usize,
            size: layout.stack_size,
            flags: data_flags(),
            populate: false,
        }),
        r.contents@ == stack_image(
            utf8_all(args@),
            utf8_all(envs@),
            auxv@,
            layout.stack_top as int,
        ),
        r.user_sp == layout.stack_top - r.contents@.len(),
        r.populate_start == r.user_sp - r.user_sp % 4096,
        ({
            let span = layout.stack_top - r.populate_start + 4095;
            r.populate_size == span - span % 4096
        }),
        r.heap == (AreaMapping {
            start: layout.heap_base,
            size: layout.heap_size,
            flags: data_flags(),
            populate: true,
        }),
{
    let flags = MappingFlags { read: true, write: true, execute: false, user: true };
    let top: usize = layout.stack_top;
    let contents = app_stack_region(args, envs, auxv, top);
    let user_sp: usize = top - contents.len();
    let populate_start: usize = align_down_4k(user_sp);
    let populate_size: usize = align_up_4k(top - populate_start);
    StackPlan {
        stack: AreaMapping {
            start: top - layout.stack_size,
            size: layout.stack_size,
            flags,
            populate: false,
        },
        populate_start,
        populate_size,
        user_sp,
        contents,
        heap: AreaMapping {
            start: layout.heap_base,
            size: layout.heap_size,
            flags,
            populate: true,
        },
    }
}

/// The pages that are made present hold the initial contents of the stack, and
/// lie in the stack if the contents do and the stack consists of whole pages.
pub proof fn law_present_pages_hold_the_contents(
    stack_top: int,
    stack_size: int,
    user_sp: int,
    populate_start: int,
    populate_size: int,
)
    requires
        0 <= user_sp <= stack_top,
        stack_top % 4096 == 0,
        stack_size % 4096 == 0,
        populate_start == user_sp - user_sp % 4096,
        ({
            let span = stack_top - populate_start + 4095;
            populate_size == span - span % 4096
        }),
    ensures
        populate_start <= user_sp,
        populate_start + populate_size == stack_top,
        stack_top - stack_size <= user_sp ==> stack_top - stack_size <= populate_start,
{
}

/// What the loading of a program, which may be a script, is waiting for.
#[derive(Debug, Clone, Copy, PartialEq, Eq, Structural)]
pub enum AppState {
    /// Whether the program is a shell script by its name.
    Deciding,
    /// The shell.
    ResolvingShell,
    /// The image.
    LoadingImage,
    /// The interpreter that the program names, as it is not an image.
    ReadingScript,
    /// That interpreter.
    ResolvingInterpreter,
    /// That the stack is mapped.
    MappingStack,
    /// That its pages are present.
    Populating,
    /// That its contents are stored.
    Storing,
    /// That the heap is mapped.
    MappingHeap,
    /// Nothing: the loading has ended.
    Finished,
}

/// What has come of it.
#[derive(Debug, Clone, Copy, PartialEq, Eq)]
pub enum AppEvent {
    /// Whether it is one, as [`shell_redirect`] tells.
    ShellScript(bool),
    /// How the loading of the image ended.
    Image(LoadEnd),
    /// Whether it worked.
    Outcome(AxResult<()>),
}

/// What to do next.
#[derive(Debug, Clone, Copy, PartialEq, Eq)]
pub enum AppAction {
    /// Look at the name of the program that is now to be loaded: the one that
    /// was resolved last, with its new arguments.
    Decide,
    /// Resolve the shell.
    ResolveShell,
    /// Load the image.
    LoadImage,
    /// Find out the interpreter, as [`script_args`] does.
    ReadScript,
    /// Resolve the interpreter.
    ResolveInterpreter,
    /// Map the stack.
    MapStack,
    /// Make its pages present.
    Populate,
    /// Store its contents.
    StoreContents,
    /// Map the heap.
    MapHeap,
    /// The loading has ended.
    Return(AxResult<()>),
}

/// The event is of the kind that the state waits for.
pub open spec fn app_fits(state: AppState, event: AppEvent) -> bool {
    match state {
        AppState::Deciding => event is ShellScript,
        AppState::LoadingImage => event is Image,
        AppState::Finished => false,
        _ => event is Outcome,
    }
}

/// What follows an event: what is waited for next, and what to do.
pub open spec fn app_step(state: AppState, event: AppEvent) -> (AppState, AppAction) {
    match (state, event) {
        (_, AppEvent::Outcome(Err(e))) => (AppState::Finished, AppAction::Return(Err(e))),
        (_, AppEvent::Image(LoadEnd::Failed(e))) => (
            AppState::Finished,
            AppAction::Return(Err(e)),
        ),
        (_, AppEvent::ShellScript(true)) => (AppState::ResolvingShell, AppAction::ResolveShell),
        (_, AppEvent::ShellScript(false)) => (AppState::LoadingImage, AppAction::LoadImage),
        (_, AppEvent::Image(LoadEnd::Loaded)) => (AppState::MappingStack, AppAction::MapStack),
        (_, AppEvent::Image(LoadEnd::NotElf)) => (AppState::ReadingScript, AppAction::ReadScript),
        (AppState::ReadingScript, _) => (
            AppState::ResolvingInterpreter,
            AppAction::ResolveInterpreter,
        ),
        (AppState::ResolvingShell, _) => (AppState::Deciding, AppAction::Decide),
        (AppState::ResolvingInterpreter, _) => (AppState::Deciding, AppAction::Decide),
        (AppState::MappingStack, _) => (AppState::Populating, AppAction::Populate),
        (AppState::Populating, _) => (AppState::Storing, AppAction::StoreContents),
        (AppState::Storing, _) => (AppState::MappingHeap, AppAction::MapHeap),
        _ => (AppState::Finished, AppAction::Return(Ok(()))),
    }
}

/// How the loading of a program goes on after `event`: what is waited for
/// next, and what to do. It begins with [`AppState::Deciding`].
pub fn load_user_app(state: AppState, event: AppEvent) -> (r: (AppState, AppAction))
    requires
        app_fits(state, event),
    ensures
        r == app_step(state, event),
{
    match (state, event) {
        (_, AppEvent::Outcome(Err(e))) => (AppState::Finished, AppAction::Return(Err(e))),
        (_, AppEvent::Image(end)) => match end {
            LoadEnd::Loaded => (AppState::MappingStack, AppAction::MapStack),
            LoadEnd::NotElf => (AppState::ReadingScript, AppAction::ReadScript),
            LoadEnd::Failed(e) => (AppState::Finished, AppAction::Return(Err(e))),
        },
        (_, AppEvent::ShellScript(is_script)) => if is_script {
            (AppState::ResolvingShell, AppAction::ResolveShell)
        } else {
            (AppState::LoadingImage, AppAction::LoadImage)
        },
        (AppState::ReadingScript, _) => (
            AppState::ResolvingInterpreter,
            AppAction::ResolveInterpreter,
        ),
        (AppState::ResolvingShell, _) | (AppState::ResolvingInterpreter, _) => (
            AppState::Deciding,
            AppAction::Decide,
        ),
        (AppState::MappingStack, _) => (AppState::Populating, AppAction::Populate),
        (AppState::Populating, _) => (AppState::Storing, AppAction::StoreContents),
        (AppState::Storing, _) => (AppState::MappingHeap, AppAction::MapHeap),
        _ => (AppState::Finished, AppAction::Return(Ok(()))),
    }
}

/// A program is loaded only when its image, its stack with its contents and
/// its heap are in place; the first failure ends the loading.
pub proof fn law_loaded_means_complete(state: AppState, event: AppEvent)
    requires
        app_fits(state, event),
    ensures
        (app_step(state, event).1 matches AppAction::Return(Ok(_))) ==> state is MappingHeap,
        app_step(state, event).0 is MappingHeap ==> state is Storing,
        app_step(state, event).0 is Storing ==> state is Populating,
        app_step(state, event).0 is Populating ==> state is MappingStack,
        app_step(state, event).0 is MappingStack ==> event == AppEvent::Image(LoadEnd::Loaded),
        (event matches AppEvent::Outcome(Err(e)) ==> app_step(state, event).1 == AppAction::Return(
            Err(e),
        )),
{
}

/// A new address space is as laid out; the page that signal handlers return
/// through is a page that is present and that user code may read and execute but
/// not write.
pub proof fn law_new_space_is_as_laid_out(
    layout: &UserLayout,
    space: (usize, usize),
    page: AreaMapping,
)
    requires
        call_ensures(new_user_aspace_empty, (layout,), space),
        call_ensures(map_trampoline, (layout,), page),
    ensures
        space.0 == layout.space_base && space.1 == layout.space_size,
        page.start == layout.signal_trampoline && page.size == 4096 && page.populate,
        page.flags.user && page.flags.read && page.flags.execute && !page.flags.write,
{
}

/// The kernel is part of the address spaces of user code on the machines that
/// have one page table for both. Programs are told of six capabilities on
/// `Loongarch64`, and on `Riscv64` of the letters A, C, D, F, I and M, each by
/// its place in the alphabet; and of none on the others.
pub proof fn law_machines_are_told_apart(arch: Arch, kernel: bool, caps: usize)
    requires
        call_ensures(copy_from_kernel, (arch,), kernel),
        call_ensures(hwcap_value, (arch,), caps),
    ensures
        kernel <==> !(arch is Aarch64 || arch is Loongarch64),
        arch is Loongarch64 ==> caps == 1 + 2 + 4 + 8 + 16 + 32,
        arch is Riscv64 ==> caps == 1 + 4 + 8 + 32 + 256 + 4096,
        arch is X86_64 || arch is Aarch64 ==> caps == 0,
{
}

/// An error ends the loading of an image and is what it ends with.
pub proof fn law_image_load_passes_errors_on(
    load: &mut ElfLoad,
    event: LoadEvent,
    action: LoadAction,
)
    requires
        load_fits(old(load).state, event),
        call_ensures(ElfLoad::next, (load, event), action),
    ensures
        event matches LoadEvent::Outcome(Err(e)) ==> action == LoadAction::Return(
            LoadEnd::Failed(e),
        ),
        event matches LoadEvent::Entry(EntryOutcome::Failed(e)) ==> action == LoadAction::Return(
            LoadEnd::Failed(e),
        ),
        action matches LoadAction::Return(LoadEnd::Failed(e)) ==> event == LoadEvent::Outcome(
            Err(e),
        ) || event == LoadEvent::Entry(EntryOutcome::Failed(e)) || (old(load).state is ReadingLinker
            && event == LoadEvent::Entry(EntryOutcome::NotElf) && e == AxError::InvalidInput),
        final(load).state is Finished <==> action is Return,
{
}

/// The loading of an image goes its way: what is remembered is not read again;
/// the address space is cleared once the program is known to be an image; a
/// linker is looked for, and if the program names one, its path is read and
/// resolved; then the program is mapped, and behind it the linker exactly if
/// there is one.
pub proof fn law_image_load_goes_its_way(
    load: &mut ElfLoad,
    event: LoadEvent,
    action: LoadAction,
)
    requires
        load_fits(old(load).state, event),
        call_ensures(ElfLoad::next, (load, event), action),
        !(event matches LoadEvent::Outcome(Err(_))),
        !(event matches LoadEvent::Entry(EntryOutcome::Failed(_))),
    ensures
        ({
            let state = old(load).state;
            &&& action is ReadProgram <==> state is LookingUpProgram && event == LoadEvent::Found(
                false,
            )
            &&& action is ClearAndMapTrampoline <==> (state is LookingUpProgram && event
                == LoadEvent::Found(true)) || (state is ReadingProgram && event == LoadEvent::Entry(
                EntryOutcome::Elf,
            ))
            &&& action == LoadAction::Return(LoadEnd::NotElf) <==> state is ReadingProgram && event
                == LoadEvent::Entry(EntryOutcome::NotElf)
            &&& action is FindLinker <==> state is Clearing
            &&& action is ReadLinkerPath <==> state is FindingLinker && event == LoadEvent::Found(
                true,
            )
            &&& action is ResolveLinker <==> state is ReadingLinkerPath
            &&& action is LookUpLinker <==> state is ResolvingLinker
            &&& action is ReadLinker <==> state is LookingUpLinker && event == LoadEvent::Found(
                false,
            )
            &&& action is MapProgram <==> (state is FindingLinker && event == LoadEvent::Found(
                false,
            )) || (state is LookingUpLinker && event == LoadEvent::Found(true)) || (
            state is ReadingLinker && event == LoadEvent::Entry(EntryOutcome::Elf))
            &&& action is MapProgram ==> final(load).state == (LoadState::MappingProgram {
                linked: !(state is FindingLinker),
            })
            &&& action is MapLinker <==> state == (LoadState::MappingProgram { linked: true })
            &&& action == LoadAction::Return(LoadEnd::Loaded) <==> state is MappingLinker || state
                == (LoadState::MappingProgram { linked: false })
        }),
        action is ReadProgram <==> final(load).state is ReadingProgram,
        action is ClearAndMapTrampoline <==> final(load).state is Clearing,
        action is FindLinker <==> final(load).state is FindingLinker,
        action is ReadLinkerPath <==> final(load).state is ReadingLinkerPath,
        action is ResolveLinker <==> final(load).state is ResolvingLinker,
        action is LookUpLinker <==> final(load).state is LookingUpLinker,
        action is ReadLinker <==> final(load).state is ReadingLinker,
        action is MapProgram <==> final(load).state is MappingProgram,
        action is MapLinker <==> final(load).state is MappingLinker,
{
}

/// The loading of an image begins with the program.
pub proof fn law_image_load_begins_with_the_program(load: ElfLoad)
    requires
        call_ensures(ElfLoad::new, (), load),
    ensures
        load.state is LookingUpProgram,
{
}

/// The path of a linker is all of its segment but the terminator.
pub proof fn law_linker_path_is_terminated(data: &[u8], r: AxResult<String>)
    requires
        call_ensures(interp_path, (data,), r),
    ensures
        r matches Ok(s) ==> data@ == encode_utf8(s@).push(0) && !encode_utf8(s@).contains(0),
        r matches Err(e) ==> e == AxError::InvalidInput,
        forall|text: Seq<u8>|
            data@ == #[trigger] text.push(0) && !text.contains(0) && valid_utf8(text) ==> r is Ok,
{
    if r is Ok {
        let t = encode_utf8(r->Ok_0@);
        assert(data@ =~= t.push(0));
        assert forall|i: int| 0 <= i < t.len() implies t[i] != 0 by {
            assert(t[i] == data@[i]);
        }
    }
    assert forall|text: Seq<u8>|
        data@ == #[trigger] text.push(0) && !text.contains(0) && valid_utf8(
            text,
        ) implies r is Ok by {
        assert(data@.drop_last() =~= text);
        assert forall|i: int| 0 <= i < data@.len() - 1 implies data@[i] != 0 by {
            assert(data@[i] == text[i]);
            assert(text.contains(text[i]));
        }
    }
}

/// A program with a linker begins in the linker, and any other in itself; the
/// program is told of its own image, of its linker if it has one, of the
/// processor, and that it runs as root without raised privileges.
pub proof fn law_program_is_told_how_it_was_loaded(
    arch: Arch,
    program: &ElfImage,
    bias: usize,
    linker: Option<(&ElfImage, usize)>,
    caps: usize,
    r: (usize, Vec<AuxEntry>),
)
    requires
        has_aux(program.spec_headers().header, program.spec_headers().ph@, bias),
        linker matches Some((l, b)) ==> l.spec_headers().header.entry_point as usize + base_of(
            l.spec_headers().header,
            b,
        ) <= usize::MAX,
        call_ensures(hwcap_value, (arch,), caps),
        call_ensures(load_result, (arch, program, bias, linker), r),
    ensures
        ({
            let header = program.spec_headers().header;
            let base: int = if header.kind == 3 {
                bias as int
            } else {
                0
            };
            let p = segment_with(program.spec_headers().ph@, (header.ph_offset as usize) as u64)->0;
            let auxv = r.1@;
            &&& says(
                auxv,
                3,
                base + p.virtual_addr as usize + (header.ph_offset as usize - p.offset as usize),
            )
            &&& says(auxv, 4, header.ph_entry_size as int)
            &&& says(auxv, 5, header.ph_count as int)
            &&& says(auxv, 6, 4096)
            &&& says(auxv, 9, base + header.entry_point as usize)
            &&& says(auxv, 16, caps as int)
            &&& says(auxv, 11, 0) && says(auxv, 12, 0) && says(auxv, 13, 0) && says(auxv, 14, 0)
            &&& says(auxv, 23, 0)
            &&& match linker {
                Some((l, b)) => {
                    let at: int = if l.spec_headers().header.kind == 3 {
                        b as int
                    } else {
                        0
                    };
                    &&& r.0 == at + l.spec_headers().header.entry_point as usize
                    &&& says(auxv, 7, at)
                    &&& auxv.len() == 12
                },
                None => {
                    &&& r.0 == base + header.entry_point as usize
                    &&& auxv.len() == 11
                    &&& forall|i: int| 0 <= i < auxv.len() ==> (#[trigger] auxv[i]).kind != 7
                },
            }
        }),
{
    let auxv = r.1@;
    assert(auxv[0].kind == 3 && auxv[1].kind == 4 && auxv[2].kind == 5 && auxv[3].kind == 6
        && auxv[4].kind == 9);
    let n: int = if linker is Some {
        6
    } else {
        5
    };
    if linker is Some {
        assert(auxv[5].kind == 7);
    }
    assert(auxv[n].kind == 16 && auxv[n + 1].kind == 11 && auxv[n + 2].kind == 12 && auxv[n
        + 3].kind == 13 && auxv[n + 4].kind == 14 && auxv[n + 5].kind == 23);
}

/// Exactly the paths with the ending `.sh` are given to the shell, which is told
/// its own path and then all arguments.
pub proof fn law_shell_scripts_are_given_to_the_shell(
    path: &str,
    args: &Vec<String>,
    r: Option<Vec<String>>,
)
    requires
        call_ensures(shell_redirect, (path, args), r),
    ensures
        r is Some <==> path@.len() >= 3 && path@.skip(path@.len() - 3) == seq!['.', 's', 'h'],
        r matches Some(new_args) ==> {
            &&& new_args@.len() == args@.len() + 1
            &&& new_args@[0]@ == "/bin/sh"@
            &&& forall|i: int| 0 <= i < args@.len() ==> new_args@[i + 1]@ == (#[trigger] args@[i])@
        },
{
    let n = path@.len();
    let ending = path@.skip(n - 3);
    if r is Some {
        assert(ending =~= seq!['.', 's', 'h']);
        lemma_texts_behind(r->0@, "/bin/sh"@, args@);
    } else if n >= 3 && ending == seq!['.', 's', 'h'] {
        assert(ending[0] == '.' && ending[1] == 's' && ending[2] == 'h');
    }
}

/// The interpreter of a script is given what the first line of the script says,
/// then the path of the script, then the arguments of the script but for the
/// first, in their order. What does not begin as a script is not executable, and
/// a script whose line is no text is invalid.
pub proof fn law_interpreter_is_given_the_script(
    data: &[u8],
    path: &str,
    args: &Vec<String>,
    r: AxResult<Vec<String>>,
)
    requires
        call_ensures(script_args, (data, path, args), r),
    ensures
        ({
            let script = data@.len() >= 2 && data@[0] == 35 && data@[1] == 33;
            &&& r == Err::<Vec<String>, AxError>(AxError::InvalidExecutable) <==> !script
            &&& r matches Err(e) ==> e == AxError::InvalidExecutable || e == AxError::InvalidInput
            &&& script && r is Err ==> exists|line: Seq<u8>| #[trigger]
                is_line_of(line, data@) && !valid_utf8(line)
            &&& r matches Ok(given) ==> exists|line: Seq<char>, words: Seq<Seq<char>>|
                {
                    &&& is_line_of(#[trigger] encode_utf8(line), data@)
                    &&& #[trigger] names_interpreter(words, line)
                    &&& given@.len() == words.len() + 1 + if args@.len() > 0 {
                        args@.len() - 1
                    } else {
                        0
                    }
                    &&& forall|i: int|
                        0 <= i < words.len() ==> (#[trigger] given@[i])@ == words[i]
                    &&& given@[words.len() as int]@ == path@
                    &&& forall|i: int|
                        1 <= i < args@.len() ==> given@[words.len() + i]@ == (
                        #[trigger] args@[i])@
                }
        }),
{
    if is_script(data@) {
        lemma_script_line(data@);
    }
    if let Ok(given) = r {
        let line = choose|line: Seq<char>|
            #![trigger interpreter_words(line)]
            encode_utf8(line) == script_line(data@) && texts(given@) == interpreter_words(line)
                + seq![path@] + without_first(texts(args@));
        let words = interpreter_words(line);
        let all = words + seq![path@] + without_first(texts(args@));
        lemma_interpreter_words(line);
        lemma_texts(given@);
        lemma_texts(args@);
        assert(given@.len() == all.len());
        assert forall|i: int| 0 <= i < words.len() implies (#[trigger] given@[i])@ == words[i] by {
            assert(texts(given@)[i] == all[i]);
        }
        assert(texts(given@)[words.len() as int] == path@);
        assert forall|i: int| 1 <= i < args@.len() implies given@[words.len() + i]@ == (
        #[trigger] args@[i])@ by {
            assert(all[words.len() + i] == texts(args@)[i]);
            assert(texts(given@)[words.len() + i] == all[words.len() + i]);
        }
        assert(names_interpreter(words, line));
        assert(is_line_of(encode_utf8(line), data@));
    }
}

/// The stack of a program ends where the layout says, is as large as it says, and
/// holds what is built for it at its end, from the stack pointer on. The pages
/// that are made present are whole, and no more than those that hold the
/// contents. The heap is where the layout says, and neither may be executed.
pub proof fn law_stack_and_heap_are_as_laid_out(
    layout: &UserLayout,
    args: &Vec<String>,
    envs: &Vec<String>,
    auxv: &Vec<AuxEntry>,
    r: StackPlan,
    image: Vec<u8>,
)
    requires
        layout.stack_size <= layout.stack_top,
        layout.stack_top + 4096 <= usize::MAX,
        call_requires(app_stack_region, (args, envs, auxv, layout.stack_top)),
        stack_image(utf8_all(args@), utf8_all(envs@), auxv@, layout.stack_top as int).len()
            <= layout.stack_top,
        call_ensures(app_stack_region, (args, envs, auxv, layout.stack_top), image),
        call_ensures(plan_stack, (layout, args, envs, auxv), r),
    ensures
        r.contents@ == image@,
        r.user_sp + r.contents@.len() == layout.stack_top,
        r.stack.start + r.stack.size == layout.stack_top && r.stack.size == layout.stack_size,
        r.stack.flags.read && r.stack.flags.write && r.stack.flags.user && !r.stack.flags.execute,
        !r.stack.populate,
        r.populate_start % 4096 == 0 && r.populate_size % 4096 == 0,
        r.populate_start <= r.user_sp < r.populate_start + 4096,
        layout.stack_top <= r.populate_start + r.populate_size < layout.stack_top + 4096,
        r.heap.start == layout.heap_base && r.heap.size == layout.heap_size && r.heap.populate,
        r.heap.flags.read && r.heap.flags.write && r.heap.flags.user && !r.heap.flags.execute,
{
}

/// The loading of a program ends with its first failure, and with that. It is
/// done once the heap is mapped, behind the contents of the stack, which are
/// stored once its pages are present, which they are made once it is mapped.
/// What is no image is loaded by its interpreter, and a shell script by the
/// shell; both are then loaded as the program was.
pub proof fn law_program_load_goes_its_way(
    state: AppState,
    event: AppEvent,
    r: (AppState, AppAction),
)
    requires
        app_fits(state, event),
        call_ensures(load_user_app, (state, event), r),
    ensures
        ({
            let worked = event matches AppEvent::Outcome(Ok(_));
            &&& event matches AppEvent::Outcome(Err(e)) ==> r.1 == AppAction::Return(Err(e))
            &&& event matches AppEvent::Image(LoadEnd::Failed(e)) ==> r.1 == AppAction::Return(
                Err(e),
            )
            &&& r.1 matches AppAction::Return(Err(e)) ==> event == AppEvent::Outcome(Err(e))
                || event == AppEvent::Image(LoadEnd::Failed(e))
            &&& r.1 is ResolveShell <==> event == AppEvent::ShellScript(true)
            &&& r.1 is LoadImage <==> event == AppEvent::ShellScript(false)
            &&& r.1 is ReadScript <==> event == AppEvent::Image(LoadEnd::NotElf)
            &&& r.1 is ResolveInterpreter <==> state is ReadingScript && worked
            &&& r.1 is Decide <==> (state is ResolvingShell || state is ResolvingInterpreter)
                && worked
            &&& r.1 is MapStack <==> event == AppEvent::Image(LoadEnd::Loaded)
            &&& r.1 is Populate <==> state is MappingStack && worked
            &&& r.1 is StoreContents <==> state is Populating && worked
            &&& r.1 is MapHeap <==> state is Storing && worked
            &&& (r.1 matches AppAction::Return(Ok(_))) <==> state is MappingHeap && worked
        }),
        r.1 is ResolveShell <==> r.0 is ResolvingShell,
        r.1 is LoadImage <==> r.0 is LoadingImage,
        r.1 is ReadScript <==> r.0 is ReadingScript,
        r.1 is ResolveInterpreter <==> r.0 is ResolvingInterpreter,
        r.1 is Decide <==> r.0 is Deciding,
        r.1 is MapStack <==> r.0 is MappingStack,
        r.1 is Populate <==> r.0 is Populating,
        r.1 is StoreContents <==> r.0 is Storing,
        r.1 is MapHeap <==> r.0 is MappingHeap,
        r.1 is Return <==> r.0 is Finished,
{
}

} // verus!
