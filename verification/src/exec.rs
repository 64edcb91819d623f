//! Executing a new image: `execve` and `execveat`.
//!
//! Everything that can fail comes first and leaves the process as it is. Then
//! the other threads of the process are made to exit, which cannot be undone,
//! and then the new image takes over. [`Exec`] decides how one gets from each
//! step to the next.

use std::sync::Arc;
use starry_process::Process;
use vstd::prelude::*;
use crate::auxv::AuxEntry;
use crate::errno::{AxError, AxResult};
use crate::process::ProcessData;
use crate::process_tree::is_ascending;
use crate::thread::Thread;
use crate::vm::{
    all_worked, all_zero, ax_error_of, law_too_long_means_not_terminated,
    law_until_nul_loads_the_array, lemma_failed_search, lemma_reads_on, memory_element, reads_end,
    reads_on, shows, until_nul_outcome, vm_load_until_nul,
};
use crate::vm_io::{lemma_continues_itself, UserMemory, VmAccess, VmIo};
use crate::words::{
    law_word_is_a_number, law_word_of_bytes, number_at, read_word, word_value, WORD_SIZE,
};

verus! {

/// The program is the file that a descriptor denotes.
pub const AT_EMPTY_PATH: u32 = 0x1000;

/// A link as the last part of the path is not followed.
pub const AT_SYMLINK_NOFOLLOW: u32 = 0x100;

/// The flags that `execveat` knows.
pub const EXECVEAT_MASK: u32 = 0x1100;

/// What a descriptor and a path denote.
#[derive(Debug)]
pub enum ExecTarget {
    /// A file, with its absolute path if it has one.
    File { absolute_path: Option<String> },
    /// An anonymous file in memory, with its name.
    Memfd { name: String },
    /// Something else without a path.
    Anonymous,
}

/// The name under which a program that is given by a descriptor and the path
/// `path` is executed.
fn display_path(target: ExecTarget, path: String) -> (r: AxResult<String>)
    ensures
        match target {
            ExecTarget::File { absolute_path: Some(p) } => r matches Ok(s) && s@ == p@,
            ExecTarget::File { absolute_path: None } => r matches Ok(s) && s@ == path@,
            ExecTarget::Memfd { name } => r matches Ok(s) && s@ == "/memfd:"@ + name@
                + " (deleted)"@,
            ExecTarget::Anonymous => r == Err::<String, AxError>(AxError::PermissionDenied),
        },
{
    match target {
        ExecTarget::File { absolute_path } => Ok(exe_path_of(absolute_path, path)),
        ExecTarget::Memfd { name } => {
            let mut s = String::from_str("/memfd:");
            s.append(name.as_str());
            s.append(" (deleted)");
            Ok(s)
        },
        ExecTarget::Anonymous => Err(AxError::PermissionDenied),
    }
}

/// The name under which `execveat` executes a program: `target` is what the
/// descriptor and `path` denote, or why that is not known. Flags that are not
/// known come first among the errors.
pub fn sys_execveat(flags: u32, target: AxResult<ExecTarget>, path: String) -> (r: AxResult<String>)
    ensures
        if flags & !EXECVEAT_MASK != 0 {
            r == Err::<String, AxError>(AxError::InvalidInput)
        } else {
            match target {
                Err(e) => r == Err::<String, AxError>(e),
                Ok(ExecTarget::File { absolute_path: Some(p) }) => r matches Ok(s) && s@ == p@,
                Ok(ExecTarget::File { absolute_path: None }) => r matches Ok(s) && s@ == path@,
                Ok(ExecTarget::Memfd { name }) => r matches Ok(s) && s@ == "/memfd:"@ + name@
                    + " (deleted)"@,
                Ok(ExecTarget::Anonymous) => r == Err::<String, AxError>(AxError::PermissionDenied),
            }
        },
{
    if flags & !EXECVEAT_MASK != 0 {
        return Err(AxError::InvalidInput);
    }
    match target {
        Ok(target) => display_path(target, path),
        Err(e) => Err(e),
    }
}

/// The path of an executable: its absolute path, or else the name `path` under
/// which it is executed.
pub fn exe_path_of(absolute_path: Option<String>, path: String) -> (r: String)
    ensures
        r@ == match absolute_path {
            Some(p) => p@,
            None => path@,
        },
{
    match absolute_path {
        Some(p) => p,
        None => path,
    }
}

/// The addresses that the words of `data` are.
pub open spec fn addresses_in(data: Seq<u8>) -> Seq<usize> {
    Seq::new(
        data.len() / 8,
        |i: int| (word_value(data.subrange(8 * i, 8 * i + 8)) as u64) as usize,
    )
}

/// The addresses of the strings of the vector at `ptr`, which a null address
/// ends. A null pointer is an empty vector.
pub fn load_string_pointers<V: VmIo>(vm: &mut UserMemory<V>, ptr: usize) -> (r: AxResult<Vec<usize>>)
    ensures
        final(vm).continues(*old(vm)),
        ({
            let reads = final(vm).accesses().skip(old(vm).accesses().len() as int);
            if ptr == 0 {
                reads == Seq::<VmAccess>::empty() && (r matches Ok(v) && v@ == Seq::<usize>::empty())
            } else if ptr % 8 != 0 {
                reads == Seq::<VmAccess>::empty() && r == Err::<Vec<usize>, AxError>(
                    AxError::BadAddress,
                )
            } else {
                match r {
                    Ok(v) => exists|data: Seq<u8>|
                        #![trigger addresses_in(data)]
                        until_nul_outcome(ptr as int, 8, reads, Ok(data)) && v@ == addresses_in(
                            data,
                        ),
                    Err(e) => exists|cause: crate::vm::VmError|
                        #![trigger ax_error_of(cause)]
                        until_nul_outcome(ptr as int, 8, reads, Err(cause)) && e == ax_error_of(
                            cause,
                        ),
                }
            }
        }),
{
    let ghost before = vm.accesses();
    if ptr == 0 {
        proof {
            lemma_continues_itself(*vm);
        }
        assert(vm.accesses().skip(before.len() as int) =~= Seq::<VmAccess>::empty());
        return Ok(Vec::new());
    }
    let data = match vm_load_until_nul(vm, ptr, WORD_SIZE, WORD_SIZE) {
        Ok(data) => data,
        Err(cause) => {
            assert(ax_error_of(cause) == ax_error_of(cause));
            return Err(AxError::from(cause));
        },
    };
    let n: usize = data.len() / 8;
    let mut pointers: Vec<usize> = Vec::new();
    let mut i: usize = 0;
    while i < n
        invariant
            i <= n,
            n == data@.len() / 8,
            data@.len() <= usize::MAX,
            pointers@ == addresses_in(data@).take(i as int),
        decreases n - i,
    {
        let word: u64 = read_word(data.as_slice(), 8 * i);
        pointers.push(word as usize);
        assert(pointers@ =~= addresses_in(data@).take(i + 1));
        i = i + 1;
    }
    assert(addresses_in(data@).take(n as int) =~= addresses_in(data@));
    Ok(pointers)
}

/// The arguments of a program: an empty list stands for one empty argument.
pub fn normalize_args(args: Vec<String>) -> (r: Vec<String>)
    ensures
        args@.len() > 0 ==> r@ == args@,
        args@.len() == 0 ==> r@.len() == 1 && r@[0]@ == Seq::<char>::empty(),
{
    let mut args = args;
    if args.len() == 0 {
        args.push(String::new());
    }
    args
}

/// The strings of `list`.
pub open spec fn texts(list: Seq<String>) -> Seq<Seq<char>> {
    list.map_values(|s: String| s@)
}

/// `first` followed by the strings of `rest`.
fn with_first(first: String, rest: &Vec<String>) -> (r: Vec<String>)
    ensures
        texts(r@) == seq![first@] + texts(rest@),
{
    let mut out: Vec<String> = Vec::new();
    let ghost head = first@;
    out.push(first);
    let mut i: usize = 0;
    assert(texts(out@) =~= seq![head] + texts(rest@).take(0));
    while i < rest.len()
        invariant
            i <= rest@.len(),
            texts(out@) == seq![head] + texts(rest@).take(i as int),
        decreases rest@.len() - i,
    {
        let ghost so_far = out@;
        let next = rest[i].clone();
        assert(next@ == texts(rest@)[i as int]);
        out.push(next);
        i = i + 1;
        assert(texts(out@) =~= texts(so_far).push(next@));
        assert(texts(out@) =~= seq![head] + texts(rest@).take(i as int));
    }
    assert(texts(rest@).take(i as int) =~= texts(rest@));
    out
}

/// The program that executes scripts.
pub fn shell_path() -> (r: String)
    ensures
        r@ == "/bin/sh"@,
{
    String::from_str("/bin/sh")
}

/// The arguments with which the shell executes a program that was to be
/// executed with `args`.
pub fn shell_args(args: &Vec<String>) -> (r: Vec<String>)
    ensures
        texts(r@) == seq!["/bin/sh"@] + texts(args@),
{
    with_first(shell_path(), args)
}

/// What an `execve` runs.
#[derive(Debug)]
pub struct Program {
    /// The name of its file, which the task is named after.
    pub name: String,
    /// The path under which it is loaded.
    pub path: String,
    /// The path of the executable.
    pub exe_path: String,
    /// Its arguments.
    pub args: Vec<String>,
}

/// What the call asks for: the file `name` with the given absolute path, if it
/// has one, under the name `path`, with `args`, to which an empty argument is
/// added if there is none.
pub fn requested_program(
    name: String,
    path: String,
    absolute_path: Option<String>,
    args: Vec<String>,
) -> (r: Program)
    ensures
        r.name == name,
        r.path@ == path@,
        r.exe_path@ == (match absolute_path {
            Some(p) => p@,
            None => path@,
        }),
        texts(r.args@) == (if args@.len() > 0 {
            texts(args@)
        } else {
            seq![Seq::<char>::empty()]
        }),
{
    let exe_path = exe_path_of(absolute_path, path.clone());
    let args = normalize_args(args);
    assert(args@.len() == 1 && args@[0]@ == Seq::<char>::empty() ==> texts(args@) =~= seq![
        Seq::<char>::empty(),
    ]);
    Program { name, path, exe_path, args }
}

/// The program of the shell.
#[derive(Debug)]
pub struct Shell {
    /// The name of its file.
    pub name: String,
    /// Its absolute path.
    pub exe_path: String,
}

/// What is loaded and installed in the end, given how the first attempt to load
/// `program` came out: the program itself or, if that is not executable, the
/// shell with the program's arguments behind its own path. `shell` tells what
/// finding the shell brought; it counts in that case only.
pub fn program_to_run(first: AxResult<()>, program: Program, shell: AxResult<Shell>) -> (r: AxResult<
    Program,
>)
    ensures
        match first {
            Ok(_) => r == Ok::<Program, AxError>(program),
            Err(AxError::InvalidExecutable) => match shell {
                Ok(s) => r matches Ok(p) && {
                    &&& p.name == s.name
                    &&& p.path@ == "/bin/sh"@
                    &&& p.exe_path == s.exe_path
                    &&& texts(p.args@) == seq!["/bin/sh"@] + texts(program.args@)
                },
                Err(e) => r == Err::<Program, AxError>(e),
            },
            Err(e) => r == Err::<Program, AxError>(e),
        },
{
    match first {
        Ok(_) => Ok(program),
        Err(AxError::InvalidExecutable) => match shell {
            Ok(shell) => Ok(
                Program {
                    name: shell.name,
                    path: shell_path(),
                    exe_path: shell.exe_path,
                    args: shell_args(&program.args),
                },
            ),
            Err(e) => Err(e),
        },
        Err(e) => Err(e),
    }
}

/// The threads among `threads` other than `my_tid`, in order.
pub open spec fn others(threads: Seq<u32>, my_tid: u32) -> Seq<u32>
    decreases threads.len(),
{
    if threads.len() == 0 {
        Seq::empty()
    } else if threads.last() != my_tid {
        others(threads.drop_last(), my_tid).push(threads.last())
    } else {
        others(threads.drop_last(), my_tid)
    }
}

/// The threads among `threads` other than `my_tid`.
pub fn siblings(threads: &Vec<u32>, my_tid: u32) -> (r: Vec<u32>)
    ensures
        r@ == others(threads@, my_tid),
{
    let mut r: Vec<u32> = Vec::new();
    let mut i: usize = 0;
    assert(threads@.take(0) =~= Seq::<u32>::empty());
    while i < threads.len()
        invariant
            i <= threads@.len(),
            r@ == others(threads@.take(i as int), my_tid),
        decreases threads@.len() - i,
    {
        let tid: u32 = threads[i];
        assert(threads@.take(i + 1).drop_last() =~= threads@.take(i as int));
        if tid != my_tid {
            r.push(tid);
        }
        i = i + 1;
    }
    assert(threads@.take(i as int) =~= threads@);
    r
}

/// The threads of `process` other than `my_tid`, by ascending id. Which they
/// are depends on the moment of the call: they are those of a list that
/// `starry_process::Process::threads` gave, every one but `my_tid`.
pub fn siblings_now(process: &Process, my_tid: u32) -> (r: Vec<u32>)
    ensures
        exists|threads: Vec<u32>|
            #[trigger] call_ensures(Process::threads, (process,), threads) && r@ == others(
                threads@,
                my_tid,
            ),
        is_ascending(r@),
        !r@.contains(my_tid),
{
    let threads = process.threads();
    let r = siblings(&threads, my_tid);
    proof {
        law_siblings_are_the_other_threads(threads@, my_tid, my_tid);
        lemma_others_ascend(threads@, my_tid);
    }
    r
}

/// Leaving a thread out keeps the order of the others.
proof fn lemma_others_ascend(threads: Seq<u32>, my_tid: u32)
    requires
        is_ascending(threads),
    ensures
        is_ascending(others(threads, my_tid)),
    decreases threads.len(),
{
    if threads.len() > 0 {
        let init = threads.drop_last();
        let some = others(init, my_tid);
        lemma_others_ascend(init, my_tid);
        assert forall|i: int| 0 <= i < some.len() implies some[i] < threads.last() by {
            assert(some.contains(some[i]));
            law_siblings_are_the_other_threads(init, my_tid, some[i]);
            let k = choose|k: int| 0 <= k < init.len() && init[k] == some[i];
            assert(threads[k] == some[i]);
        }
    }
}

/// The siblings of a thread are exactly the other threads of its process.
pub proof fn law_siblings_are_the_other_threads(threads: Seq<u32>, my_tid: u32, tid: u32)
    ensures
        others(threads, my_tid).contains(tid) <==> (threads.contains(tid) && tid != my_tid),
    decreases threads.len(),
{
    if threads.len() > 0 {
        let init = threads.drop_last();
        let last = threads.last();
        let some = others(init, my_tid);
        law_siblings_are_the_other_threads(init, my_tid, tid);
        assert(threads =~= init.push(last));
        assert(init.push(last).contains(tid) <==> (init.contains(tid) || tid == last)) by {
            if init.contains(tid) {
                let i = choose|i: int| 0 <= i < init.len() && init[i] == tid;
                assert(init.push(last)[i] == tid);
            }
            assert(init.push(last)[init.len() as int] == last);
        }
        assert(some.push(last).contains(tid) <==> (some.contains(tid) || tid == last)) by {
            if some.contains(tid) {
                let i = choose|i: int| 0 <= i < some.len() && some[i] == tid;
                assert(some.push(last)[i] == tid);
            }
            assert(some.push(last)[some.len() as int] == last);
        }
    }
}

/// The descriptors in `fds` that are marked, in order.
pub open spec fn marked(fds: Seq<(usize, bool)>) -> Seq<usize>
    decreases fds.len(),
{
    if fds.len() == 0 {
        Seq::empty()
    } else if fds.last().1 {
        marked(fds.drop_last()).push(fds.last().0)
    } else {
        marked(fds.drop_last())
    }
}

/// The descriptors that are closed when a new image is executed: those of the
/// table `fds` that are marked so.
pub fn cloexec_fds(fds: &Vec<(usize, bool)>) -> (r: Vec<usize>)
    ensures
        r@ == marked(fds@),
{
    let mut r: Vec<usize> = Vec::new();
    let mut i: usize = 0;
    assert(fds@.take(0) =~= Seq::<(usize, bool)>::empty());
    while i < fds.len()
        invariant
            i <= fds@.len(),
            r@ == marked(fds@.take(i as int)),
        decreases fds@.len() - i,
    {
        let (fd, cloexec) = fds[i];
        assert(fds@.take(i + 1).drop_last() =~= fds@.take(i as int));
        if cloexec {
            r.push(fd);
        }
        i = i + 1;
    }
    assert(fds@.take(i as int) =~= fds@);
    r
}

/// One thing that is done when the new image takes over. None of them can
/// fail.
#[derive(Debug, Clone, Copy, PartialEq, Eq, Structural)]
pub enum CommitOp {
    /// Give the process the new address space, for itself alone.
    ReplaceAddressSpace,
    /// Use its page table.
    SwitchPageTable,
    /// Record the new image, as [`install_image`] does, and name the task
    /// after it.
    InstallImage,
    /// Make handlers of the old image the default ones, and forget its
    /// signal stack. Ignored signals stay ignored, pending ones pending.
    ResetSignals,
    /// Remove the timers.
    ClearTimers,
    /// Forget pointers into the old image, as [`forget_user_pointers`] does.
    ForgetUserPointers,
    /// Close the descriptors that are marked for that.
    CloseOnExec,
    /// Take over the id of the leader, as [`adopt_leader_id`] does, in the
    /// table of tasks, in the signal state and, as [`rename_thread`] does, among
    /// the threads as well.
    AdoptLeaderId { from: u32, to: u32 },
    /// Give all registers the values of a fresh program.
    ResetContext,
    /// Wake the parent that waits in `vfork`.
    NotifyVfork,
}

/// What is done when the new image takes over, in order, for the thread
/// `my_tid` of the process `tgid`.
pub open spec fn commit_ops(my_tid: u32, tgid: u32) -> Seq<CommitOp> {
    let adopt = if my_tid != tgid {
        seq![CommitOp::AdoptLeaderId { from: my_tid, to: tgid }]
    } else {
        Seq::empty()
    };
    seq![
        CommitOp::ReplaceAddressSpace,
        CommitOp::SwitchPageTable,
        CommitOp::InstallImage,
        CommitOp::ResetSignals,
        CommitOp::ClearTimers,
        CommitOp::ForgetUserPointers,
        CommitOp::CloseOnExec,
    ] + adopt + seq![CommitOp::ResetContext, CommitOp::NotifyVfork]
}

/// Operation `at` of [`commit_ops`], if there are so many.
fn commit_op(my_tid: u32, tgid: u32, at: usize) -> (r: Option<CommitOp>)
    ensures
        r == (if at < commit_ops(my_tid, tgid).len() {
            Some(commit_ops(my_tid, tgid)[at as int])
        } else {
            None
        }),
{
    if at == 0 {
        return Some(CommitOp::ReplaceAddressSpace);
    }
    if at == 1 {
        return Some(CommitOp::SwitchPageTable);
    }
    if at == 2 {
        return Some(CommitOp::InstallImage);
    }
    if at == 3 {
        return Some(CommitOp::ResetSignals);
    }
    if at == 4 {
        return Some(CommitOp::ClearTimers);
    }
    if at == 5 {
        return Some(CommitOp::ForgetUserPointers);
    }
    if at == 6 {
        return Some(CommitOp::CloseOnExec);
    }
    let rest: usize = if my_tid != tgid {
        if at == 7 {
            return Some(CommitOp::AdoptLeaderId { from: my_tid, to: tgid });
        }
        at - 1
    } else {
        at
    };
    if rest == 7 {
        Some(CommitOp::ResetContext)
    } else if rest == 8 {
        Some(CommitOp::NotifyVfork)
    } else {
        None
    }
}

/// What an `execve` is waiting for.
#[derive(Debug, Clone, Copy, PartialEq, Eq, Structural)]
pub enum ExecState {
    /// The lock that only one `execve` of a process can hold.
    Locking,
    /// A fresh address space.
    Building,
    /// The program in it.
    Loading,
    /// The shell, because the program is not executable.
    FindingShell,
    /// The shell in the address space.
    LoadingShell,
    /// The list of the other threads, before they are told to exit.
    Listing,
    /// That they are told.
    Zapping,
    /// The list of the other threads, after they were told.
    Checking,
    /// That the exit of a thread wakes the caller.
    Registering,
    /// The list of the other threads, once it does.
    Rechecking,
    /// That the exit of a thread has woken the caller.
    Sleeping,
    /// That the operation with this number is performed.
    Committing(usize),
    /// Nothing: the call has returned.
    Finished,
}

/// What has come of it.
#[derive(Debug, Clone, Copy, PartialEq, Eq)]
pub enum ExecEvent {
    /// Whether the lock could be taken and, if not, whether the thread is to
    /// exit.
    LockTried { acquired: bool, exit_requested: bool },
    /// Whether it worked.
    Outcome(AxResult<()>),
    /// The number of other threads.
    Siblings(usize),
    /// It is done.
    Done,
}

/// What to do next.
#[derive(Debug, Clone, Copy, PartialEq, Eq)]
pub enum ExecAction {
    /// Let other tasks run, then try to take the lock again.
    YieldAndTryLock,
    /// Create a fresh address space, with the part of the kernel where
    /// [`crate::loader::copy_from_kernel`] says so.
    BuildAddressSpace,
    /// Load the program of [`requested_program`].
    Load,
    /// Find the shell.
    FindShell,
    /// Load the shell, which is the program of [`program_to_run`].
    LoadShell,
    /// List the other threads.
    ListSiblings,
    /// Tell each of the listed threads to exit.
    Zap,
    /// Arrange to be woken when a thread exits.
    Register,
    /// Sleep until that happens. Signals do not end the sleep.
    Sleep,
    /// Perform the operation.
    Perform(CommitOp),
    /// The call returns this.
    Return(AxResult<isize>),
}

/// An `execve` in progress.
#[derive(Debug)]
pub struct Exec {
    /// The thread that makes the call.
    pub my_tid: u32,
    /// Its process.
    pub tgid: u32,
    /// What is waited for.
    pub state: ExecState,
}

/// The event is of the kind that the state waits for.
pub open spec fn fits(state: ExecState, event: ExecEvent) -> bool {
    match state {
        ExecState::Locking => event is LockTried,
        ExecState::Building
        | ExecState::Loading
        | ExecState::FindingShell
        | ExecState::LoadingShell => event is Outcome,
        ExecState::Listing | ExecState::Checking | ExecState::Rechecking => event is Siblings,
        ExecState::Zapping
        | ExecState::Registering
        | ExecState::Sleeping
        | ExecState::Committing(_) => event is Done,
        ExecState::Finished => false,
    }
}

/// The call fails with `e`.
pub open spec fn fail(e: AxError) -> (ExecState, ExecAction) {
    (ExecState::Finished, ExecAction::Return(Err(e)))
}

/// The step into operation `at` of the takeover, or the successful end.
pub open spec fn commit_from(my_tid: u32, tgid: u32, at: int) -> (ExecState, ExecAction) {
    if at < commit_ops(my_tid, tgid).len() {
        (
            ExecState::Committing(at as usize),
            ExecAction::Perform(commit_ops(my_tid, tgid)[at]),
        )
    } else {
        (ExecState::Finished, ExecAction::Return(Ok(0)))
    }
}

/// What follows an event: what is waited for next, and what to do.
pub open spec fn exec_step(
    my_tid: u32,
    tgid: u32,
    state: ExecState,
    event: ExecEvent,
) -> (ExecState, ExecAction) {
    let list = (ExecState::Listing, ExecAction::ListSiblings);
    match (state, event) {
        (ExecState::Locking, ExecEvent::LockTried { acquired, exit_requested }) => if acquired {
            (ExecState::Building, ExecAction::BuildAddressSpace)
        } else if exit_requested {
            fail(AxError::Interrupted)
        } else {
            (ExecState::Locking, ExecAction::YieldAndTryLock)
        },
        (ExecState::Building, ExecEvent::Outcome(Ok(_))) => (ExecState::Loading, ExecAction::Load),
        (ExecState::Loading, ExecEvent::Outcome(Ok(_))) => list,
        (ExecState::Loading, ExecEvent::Outcome(Err(AxError::InvalidExecutable))) => (
            ExecState::FindingShell,
            ExecAction::FindShell,
        ),
        (ExecState::FindingShell, ExecEvent::Outcome(Ok(_))) => (
            ExecState::LoadingShell,
            ExecAction::LoadShell,
        ),
        (ExecState::LoadingShell, ExecEvent::Outcome(Ok(_))) => list,
        (_, ExecEvent::Outcome(Err(e))) => fail(e),
        (ExecState::Listing, ExecEvent::Siblings(n)) => if n == 0 {
            commit_from(my_tid, tgid, 0)
        } else {
            (ExecState::Zapping, ExecAction::Zap)
        },
        (ExecState::Zapping, _) => (ExecState::Checking, ExecAction::ListSiblings),
        (ExecState::Checking, ExecEvent::Siblings(n)) => if n == 0 {
            list
        } else {
            (ExecState::Registering, ExecAction::Register)
        },
        (ExecState::Registering, _) => (ExecState::Rechecking, ExecAction::ListSiblings),
        (ExecState::Rechecking, ExecEvent::Siblings(n)) => if n == 0 {
            list
        } else {
            (ExecState::Sleeping, ExecAction::Sleep)
        },
        (ExecState::Sleeping, _) => (ExecState::Checking, ExecAction::ListSiblings),
        (ExecState::Committing(at), _) => commit_from(my_tid, tgid, at + 1),
        _ => (state, ExecAction::Return(Ok(0))),
    }
}

impl Exec {
    /// The operation that is waited for exists.
    pub open spec fn wf(&self) -> bool {
        self.state matches ExecState::Committing(at) ==> at < commit_ops(
            self.my_tid,
            self.tgid,
        ).len()
    }

    /// An `execve` of the thread `my_tid` of the process `tgid`, which begins
    /// by trying to take the lock.
    pub fn new(my_tid: u32, tgid: u32) -> (r: Exec)
        ensures
            r == (Exec { my_tid, tgid, state: ExecState::Locking }),
            r.wf(),
    {
        Exec { my_tid, tgid, state: ExecState::Locking }
    }

    /// Goes to operation `at` of the takeover, or ends successfully.
    fn go_to_commit(&mut self, at: usize) -> (action: ExecAction)
        requires
            at <= commit_ops(old(self).my_tid, old(self).tgid).len(),
        ensures
            final(self).wf(),
            final(self).my_tid == old(self).my_tid,
            final(self).tgid == old(self).tgid,
            (final(self).state, action) == commit_from(
                old(self).my_tid,
                old(self).tgid,
                at as int,
            ),
    {
        match commit_op(self.my_tid, self.tgid, at) {
            Some(op) => {
                self.state = ExecState::Committing(at);
                ExecAction::Perform(op)
            },
            None => {
                self.state = ExecState::Finished;
                ExecAction::Return(Ok(0))
            },
        }
    }

    /// Goes on after `event`.
    pub fn next(&mut self, event: ExecEvent) -> (action: ExecAction)
        requires
            old(self).wf(),
            fits(old(self).state, event),
        ensures
            final(self).wf(),
            final(self).my_tid == old(self).my_tid,
            final(self).tgid == old(self).tgid,
            (final(self).state, action) == exec_step(
                old(self).my_tid,
                old(self).tgid,
                old(self).state,
                event,
            ),
    {
        match (self.state, event) {
            (ExecState::Locking, ExecEvent::LockTried { acquired, exit_requested }) => {
                if acquired {
                    self.state = ExecState::Building;
                    ExecAction::BuildAddressSpace
                } else if exit_requested {
                    self.state = ExecState::Finished;
                    ExecAction::Return(Err(AxError::Interrupted))
                } else {
                    ExecAction::YieldAndTryLock
                }
            },
            (ExecState::Building, ExecEvent::Outcome(Ok(_))) => {
                self.state = ExecState::Loading;
                ExecAction::Load
            },
            (ExecState::Loading, ExecEvent::Outcome(Err(AxError::InvalidExecutable))) => {
                self.state = ExecState::FindingShell;
                ExecAction::FindShell
            },
            (ExecState::FindingShell, ExecEvent::Outcome(Ok(_))) => {
                self.state = ExecState::LoadingShell;
                ExecAction::LoadShell
            },
            (ExecState::Loading, ExecEvent::Outcome(Ok(_)))
            | (ExecState::LoadingShell, ExecEvent::Outcome(Ok(_)))
            | (ExecState::Checking, ExecEvent::Siblings(0))
            | (ExecState::Rechecking, ExecEvent::Siblings(0)) => {
                self.state = ExecState::Listing;
                ExecAction::ListSiblings
            },
            (_, ExecEvent::Outcome(Err(e))) => {
                self.state = ExecState::Finished;
                ExecAction::Return(Err(e))
            },
            (ExecState::Listing, ExecEvent::Siblings(n)) => {
                if n == 0 {
                    self.go_to_commit(0)
                } else {
                    self.state = ExecState::Zapping;
                    ExecAction::Zap
                }
            },
            (ExecState::Zapping, _) | (ExecState::Sleeping, _) => {
                self.state = ExecState::Checking;
                ExecAction::ListSiblings
            },
            (ExecState::Checking, _) => {
                self.state = ExecState::Registering;
                ExecAction::Register
            },
            (ExecState::Registering, _) => {
                self.state = ExecState::Rechecking;
                ExecAction::ListSiblings
            },
            (ExecState::Rechecking, _) => {
                self.state = ExecState::Sleeping;
                ExecAction::Sleep
            },
            (ExecState::Committing(at), _) => self.go_to_commit(at + 1),
            _ => ExecAction::Return(Ok(0)),
        }
    }
}

/// Gives the process the address space of the new image, for itself alone, and
/// returns the old one, which other processes may still use.
pub fn replace_address_space<A, W>(data: &mut ProcessData<A, W>, new_aspace: A) -> (r: A)
    ensures
        r == old(data).aspace,
        *final(data) == (ProcessData {
            aspace: new_aspace,
            vm_aspace_shared: false,
            ..*old(data)
        }),
{
    let old_aspace = data.replace_aspace(new_aspace);
    data.mark_vm_aspace_private_after_exec();
    old_aspace
}

/// Records the new image: its path, its arguments and its auxiliary vector.
/// Its heap begins at `heap_base`.
pub fn install_image<A, W>(
    data: &mut ProcessData<A, W>,
    exe_path: String,
    args: Vec<String>,
    auxv: Vec<AuxEntry>,
    heap_base: usize,
)
    ensures
        *final(data).cmdline == args,
        *final(data) == (ProcessData {
            exe_path,
            cmdline: final(data).cmdline,
            auxv,
            heap_top: heap_base,
            ..*old(data)
        }),
{
    data.exe_path = exe_path;
    data.cmdline = Arc::new(args);
    data.auxv = auxv;
    data.set_heap_top(heap_base);
}

/// Forgets the pointers into the old image, which are of no use any more.
pub fn forget_user_pointers<C, S>(thr: &mut Thread<C, S>)
    ensures
        *final(thr) == (Thread {
            clear_child_tid: 0,
            robust_list_head: 0,
            rseq_area: 0,
            rseq_signature: 0,
            ..*old(thr)
        }),
{
    thr.set_clear_child_tid(0);
    thr.set_robust_list_head(0);
    thr.clear_rseq_state();
}

/// Gives the only thread that is left of a process the id of its leader.
pub fn adopt_leader_id<C, S>(thr: &mut Thread<C, S>, tgid: u32)
    ensures
        *final(thr) == (Thread { tid: tgid, ..*old(thr) }),
{
    thr.set_tid(tgid);
}

/// Gives the thread `from` of `process` the id `to`.
pub fn rename_thread(process: &Arc<Process>, from: u32, to: u32)
    ensures
        call_ensures(Process::rename_thread, (process, from, to), ()),
{
    process.rename_thread(from, to)
}

/// The other threads of the process have been told to exit, or are about to.
pub open spec fn is_irreversible(state: ExecState) -> bool {
    match state {
        ExecState::Zapping
        | ExecState::Checking
        | ExecState::Registering
        | ExecState::Rechecking
        | ExecState::Sleeping
        | ExecState::Committing(_) => true,
        _ => false,
    }
}

/// From the moment on which the other threads are told to exit the call
/// cannot fail any more, and it does not go back to a step that could.
pub proof fn law_no_failure_once_irreversible(
    my_tid: u32,
    tgid: u32,
    state: ExecState,
    event: ExecEvent,
)
    requires
        is_irreversible(state) || state is Listing,
        fits(state, event),
    ensures
        ({
            let (next, action) = exec_step(my_tid, tgid, state, event);
            &&& !(action matches ExecAction::Return(Err(_)))
            &&& is_irreversible(next) || next is Listing || (next is Finished && action
                == ExecAction::Return(Ok(0)))
        }),
{
}

/// A call that fails has neither told a thread to exit nor changed anything
/// of the process: it fails in a step before all that.
pub proof fn law_failure_leaves_the_process(
    my_tid: u32,
    tgid: u32,
    state: ExecState,
    event: ExecEvent,
)
    requires
        fits(state, event),
        exec_step(my_tid, tgid, state, event).1 matches ExecAction::Return(Err(_)),
    ensures
        state is Locking || state is Building || state is Loading || state is FindingShell
            || state is LoadingShell,
{
}

/// The state that an `execve` is in after `events`; `None` if one of them does
/// not fit.
pub open spec fn state_after(my_tid: u32, tgid: u32, events: Seq<ExecEvent>) -> Option<ExecState>
    decreases events.len(),
{
    if events.len() == 0 {
        Some(ExecState::Locking)
    } else {
        match state_after(my_tid, tgid, events.drop_last()) {
            Some(state) if fits(state, events.last()) => Some(
                exec_step(my_tid, tgid, state, events.last()).0,
            ),
            _ => None,
        }
    }
}

/// No matter how a call went on, once the other threads are told to exit it is
/// past all steps that can fail.
proof fn lemma_irreversible_stays(my_tid: u32, tgid: u32, events: Seq<ExecEvent>, k: int)
    requires
        0 <= k <= events.len(),
        state_after(my_tid, tgid, events) is Some,
        state_after(my_tid, tgid, events.take(k)) matches Some(s) && is_irreversible(s),
    ensures
        ({
            let s = state_after(my_tid, tgid, events)->0;
            is_irreversible(s) || s is Listing || s is Finished
        }),
    decreases events.len(),
{
    if k < events.len() {
        let init = events.drop_last();
        assert(init.take(k) =~= events.take(k));
        lemma_irreversible_stays(my_tid, tgid, init, k);
        law_no_failure_once_irreversible(
            my_tid,
            tgid,
            state_after(my_tid, tgid, init)->0,
            events.last(),
        );
    } else {
        assert(events.take(k) =~= events);
    }
}

/// A call that fails at last, whatever happened before, has at no time told a
/// thread to exit and at no time changed anything of the process.
pub proof fn law_failed_call_was_never_irreversible(
    my_tid: u32,
    tgid: u32,
    events: Seq<ExecEvent>,
    last: ExecEvent,
    k: int,
)
    requires
        0 <= k <= events.len(),
        state_after(my_tid, tgid, events) matches Some(s) && fits(s, last) && (exec_step(
            my_tid,
            tgid,
            s,
            last,
        ).1 matches ExecAction::Return(Err(_))),
    ensures
        !(state_after(my_tid, tgid, events.take(k)) matches Some(s) && is_irreversible(s)),
{
    if state_after(my_tid, tgid, events.take(k)) matches Some(s) && is_irreversible(s) {
        lemma_irreversible_stays(my_tid, tgid, events, k);
    }
}

/// Event `k` told that the program, or the shell in its place, was loaded.
pub open spec fn loaded_at(my_tid: u32, tgid: u32, events: Seq<ExecEvent>, k: int) -> bool {
    &&& 0 <= k < events.len()
    &&& state_after(my_tid, tgid, events.take(k)) == Some(ExecState::Loading) || state_after(
        my_tid,
        tgid,
        events.take(k),
    ) == Some(ExecState::LoadingShell)
    &&& events[k] matches ExecEvent::Outcome(Ok(_))
}

/// No thread is told to exit, and nothing of the process is changed, before a
/// program has been loaded completely.
pub proof fn law_nothing_is_lost_before_a_program_is_loaded(
    my_tid: u32,
    tgid: u32,
    events: Seq<ExecEvent>,
)
    requires
        state_after(my_tid, tgid, events) matches Some(s) && (is_irreversible(s) || s is Listing),
    ensures
        exists|k: int| loaded_at(my_tid, tgid, events, k),
    decreases events.len(),
{
    let init = events.drop_last();
    let n = events.len() as int;
    let before = state_after(my_tid, tgid, init)->0;
    if is_irreversible(before) || before is Listing {
        law_nothing_is_lost_before_a_program_is_loaded(my_tid, tgid, init);
        let k = choose|k: int| loaded_at(my_tid, tgid, init, k);
        assert(events.take(k) =~= init.take(k));
        assert(loaded_at(my_tid, tgid, events, k));
    } else {
        assert(events.take(n - 1) =~= init);
        assert(loaded_at(my_tid, tgid, events, n - 1));
    }
}

/// The new image takes over only when a list of the threads shows the caller
/// alone.
pub proof fn law_takeover_only_when_alone(
    my_tid: u32,
    tgid: u32,
    state: ExecState,
    event: ExecEvent,
)
    requires
        fits(state, event),
        !(state is Committing),
        exec_step(my_tid, tgid, state, event).0 is Committing,
    ensures
        state is Listing,
        event == ExecEvent::Siblings(0),
        exec_step(my_tid, tgid, state, event) == (
            ExecState::Committing(0),
            ExecAction::Perform(CommitOp::ReplaceAddressSpace),
        ),
{
}

/// The caller sleeps only after a look at the threads that it made once it
/// had arranged to be woken, so no exit is missed.
pub proof fn law_no_exit_is_missed(my_tid: u32, tgid: u32, state: ExecState, event: ExecEvent)
    requires
        fits(state, event),
        exec_step(my_tid, tgid, state, event).1 is Sleep,
    ensures
        state is Rechecking,
        event matches ExecEvent::Siblings(n) && n > 0,
{
}

/// A program that is not executable is given to the shell, once: when the
/// shell is not executable either, that is the error.
pub proof fn law_shell_is_tried_once(my_tid: u32, tgid: u32)
    ensures
        ({
            let noexec = ExecEvent::Outcome(Err(AxError::InvalidExecutable));
            &&& exec_step(my_tid, tgid, ExecState::Loading, noexec).1 == ExecAction::FindShell
            &&& exec_step(my_tid, tgid, ExecState::LoadingShell, noexec).1 == ExecAction::Return(
                Err(AxError::InvalidExecutable),
            )
        }),
{
}

/// The takeover performs its operations one after the other and all of them.
/// The parent that waits in `vfork` is woken last, when the descriptors that
/// are not for the new image are closed.
pub proof fn law_vfork_parent_is_woken_last(my_tid: u32, tgid: u32)
    ensures
        ({
            let ops = commit_ops(my_tid, tgid);
            &&& ops.last() == CommitOp::NotifyVfork
            &&& ops[6] == CommitOp::CloseOnExec
            &&& ops.len() >= 9
            &&& exec_step(
                my_tid,
                tgid,
                ExecState::Committing((ops.len() - 1) as usize),
                ExecEvent::Done,
            ).1 == ExecAction::Return(Ok(0))
            &&& forall|at: int|
                0 <= at < ops.len() - 1 ==> exec_step(
                    my_tid,
                    tgid,
                    ExecState::Committing(at as usize),
                    ExecEvent::Done,
                ).1 == ExecAction::Perform(#[trigger] ops[at + 1])
        }),
{
    let ops = commit_ops(my_tid, tgid);
    assert forall|at: int| 0 <= at < ops.len() - 1 implies exec_step(
        my_tid,
        tgid,
        ExecState::Committing(at as usize),
        ExecEvent::Done,
    ).1 == ExecAction::Perform(#[trigger] ops[at + 1]) by {
        assert(commit_from(my_tid, tgid, at + 1).1 == ExecAction::Perform(ops[at + 1]));
    }
}

/// In the new image the id of the thread is that of the process: a thread
/// other than the leader takes over the id of the leader.
pub proof fn law_thread_id_is_process_id(my_tid: u32, tgid: u32)
    ensures
        commit_ops(my_tid, tgid).contains(CommitOp::AdoptLeaderId { from: my_tid, to: tgid })
            <==> my_tid != tgid,
{
    let ops = commit_ops(my_tid, tgid);
    if my_tid != tgid {
        assert(ops[7] == CommitOp::AdoptLeaderId { from: my_tid, to: tgid });
    }
}

/// Picking the marked descriptors is picking pairs.
proof fn lemma_marked(fds: Seq<(usize, bool)>)
    ensures
        marked(fds) == fds.filter(|e: (usize, bool)| e.1).map_values(|e: (usize, bool)| e.0),
    decreases fds.len(),
{
    reveal(Seq::filter);
    let pick = |e: (usize, bool)| e.1;
    let first = |e: (usize, bool)| e.0;
    if fds.len() > 0 {
        let init = fds.drop_last();
        lemma_marked(init);
        assert(init.filter(pick).push(fds.last()).map_values(first) =~= init.filter(
            pick,
        ).map_values(first).push(fds.last().0));
    } else {
        assert(fds.filter(pick).map_values(first) =~= Seq::<usize>::empty());
    }
}

/// A descriptor is marked exactly when the table holds it with the mark.
proof fn lemma_marked_holds(fds: Seq<(usize, bool)>, fd: usize)
    ensures
        marked(fds).contains(fd) <==> fds.contains((fd, true)),
    decreases fds.len(),
{
    if fds.len() > 0 {
        let init = fds.drop_last();
        let last = fds.last();
        lemma_marked_holds(init, fd);
        assert(fds.contains((fd, true)) <==> init.contains((fd, true)) || last == (fd, true)) by {
            if init.contains((fd, true)) {
                let i = choose|i: int| 0 <= i < init.len() && init[i] == (fd, true);
                assert(fds[i] == (fd, true));
            }
            if fds.contains((fd, true)) && last != (fd, true) {
                let i = choose|i: int| 0 <= i < fds.len() && fds[i] == (fd, true);
                assert(init[i] == (fd, true));
            }
            assert(fds[fds.len() - 1] == last);
        }
        let some = marked(init);
        assert(some.push(last.0).contains(fd) <==> some.contains(fd) || fd == last.0) by {
            if some.contains(fd) {
                let i = choose|i: int| 0 <= i < some.len() && some[i] == fd;
                assert(some.push(last.0)[i] == fd);
            }
            assert(some.push(last.0)[some.len() as int] == last.0);
        }
    }
}

/// Exactly the descriptors that the table holds with the mark are closed, each
/// as often as it is there, in the order of the table.
pub proof fn law_marked_descriptors_are_closed(
    fds: &Vec<(usize, bool)>,
    r: Vec<usize>,
    fd: usize,
)
    requires
        call_ensures(cloexec_fds, (fds,), r),
    ensures
        r@.contains(fd) <==> fds@.contains((fd, true)),
        r@ == fds@.filter(|e: (usize, bool)| e.1).map_values(|e: (usize, bool)| e.0),
{
    lemma_marked(fds@);
    lemma_marked_holds(fds@, fd);
}

/// Leaving a thread out is picking the others.
proof fn lemma_others(threads: Seq<u32>, my_tid: u32)
    ensures
        others(threads, my_tid) == threads.filter(|tid: u32| tid != my_tid),
    decreases threads.len(),
{
    reveal(Seq::filter);
    if threads.len() > 0 {
        lemma_others(threads.drop_last(), my_tid);
    }
}

/// The siblings are all threads but the caller, each as often as it is listed,
/// in the order of the list.
pub proof fn law_every_other_thread_is_a_sibling(threads: &Vec<u32>, my_tid: u32, r: Vec<u32>)
    requires
        call_ensures(siblings, (threads, my_tid), r),
    ensures
        r@ == threads@.filter(|tid: u32| tid != my_tid),
        forall|tid: u32| #[trigger]
            r@.contains(tid) <==> threads@.contains(tid) && tid != my_tid,
{
    lemma_others(threads@, my_tid);
    assert forall|tid: u32| #[trigger]
        r@.contains(tid) <==> threads@.contains(tid) && tid != my_tid by {
        law_siblings_are_the_other_threads(threads@, my_tid, tid);
    }
}

/// A takeover leaves nothing out and does nothing else: a thread other than the
/// leader takes over its id, and everything else is done always.
pub proof fn law_takeover_is_complete(my_tid: u32, tgid: u32, op: CommitOp)
    ensures
        commit_ops(my_tid, tgid).contains(op) <==> match op {
            CommitOp::AdoptLeaderId { from, to } => my_tid != tgid && from == my_tid && to == tgid,
            _ => true,
        },
{
    let ops = commit_ops(my_tid, tgid);
    let n = ops.len() as int;
    assert(ops[0] is ReplaceAddressSpace && ops[1] is SwitchPageTable && ops[2] is InstallImage);
    assert(ops[3] is ResetSignals && ops[4] is ClearTimers && ops[5] is ForgetUserPointers);
    assert(ops[6] is CloseOnExec && ops[n - 2] is ResetContext && ops[n - 1] is NotifyVfork);
    if my_tid != tgid {
        assert(ops[7] == CommitOp::AdoptLeaderId { from: my_tid, to: tgid });
    }
}

/// Where an operation stands in a takeover.
pub open spec fn takeover_stage(op: CommitOp) -> int {
    match op {
        CommitOp::ReplaceAddressSpace => 0,
        CommitOp::SwitchPageTable => 1,
        CommitOp::InstallImage => 2,
        CommitOp::ResetSignals => 3,
        CommitOp::ClearTimers => 4,
        CommitOp::ForgetUserPointers => 5,
        CommitOp::CloseOnExec => 6,
        CommitOp::AdoptLeaderId { .. } => 7,
        CommitOp::ResetContext => 8,
        CommitOp::NotifyVfork => 9,
    }
}

/// The operations of a takeover come in one order, and none comes twice.
pub proof fn law_takeover_is_in_order(my_tid: u32, tgid: u32, i: int, j: int)
    requires
        0 <= i < j < commit_ops(my_tid, tgid).len(),
    ensures
        takeover_stage(commit_ops(my_tid, tgid)[i]) < takeover_stage(commit_ops(my_tid, tgid)[j]),
{
}

/// A step of an `execve` that fails ends the call with its own error, except
/// that a program which is not executable is left to the shell. A caller that
/// is to exit does not wait for the lock.
pub proof fn law_errors_are_passed_on(exec: &mut Exec, event: ExecEvent, action: ExecAction)
    requires
        call_ensures(Exec::next, (exec, event), action),
        old(exec).wf(),
        fits(old(exec).state, event),
    ensures
        event matches ExecEvent::Outcome(Err(e)) ==> if old(exec).state is Loading && e
            == AxError::InvalidExecutable {
            action == ExecAction::FindShell
        } else {
            action == ExecAction::Return(Err(e))
        },
        action matches ExecAction::Return(Err(e)) ==> event == ExecEvent::Outcome(Err(e)) || (event
            matches ExecEvent::LockTried { acquired: false, exit_requested: true } && e
            == AxError::Interrupted),
        event matches ExecEvent::LockTried { acquired, exit_requested } ==> {
            &&& acquired ==> action == ExecAction::BuildAddressSpace
            &&& !acquired && exit_requested ==> action == ExecAction::Return(
                Err(AxError::Interrupted),
            )
            &&& !acquired && !exit_requested ==> action == ExecAction::YieldAndTryLock
                && final(exec).state is Locking
        },
        action matches ExecAction::Return(Ok(n)) ==> n == 0,
        final(exec).my_tid == old(exec).my_tid && final(exec).tgid == old(exec).tgid,
{
}

/// What has been built is loaded into, what has been loaded is followed by the
/// end of the other threads, and the shell is loaded once it is found.
pub proof fn law_success_leads_on(exec: &mut Exec, action: ExecAction)
    requires
        call_ensures(Exec::next, (exec, ExecEvent::Outcome(Ok(()))), action),
        old(exec).wf(),
        fits(old(exec).state, ExecEvent::Outcome(Ok(()))),
    ensures
        old(exec).state is Building <==> action is Load,
        old(exec).state is FindingShell <==> action is LoadShell,
        old(exec).state is Loading || old(exec).state is LoadingShell <==> action is ListSiblings,
        final(exec).state == (match action {
            ExecAction::Load => ExecState::Loading,
            ExecAction::LoadShell => ExecState::LoadingShell,
            _ => ExecState::Listing,
        }),
{
}

/// Threads that are listed are told to exit, before they are waited for; the
/// caller waits as long as some are left, and when none is left it lists them
/// once more, since those that were told may have started others.
pub proof fn law_threads_are_told_and_waited_for(
    exec: &mut Exec,
    n: usize,
    action: ExecAction,
)
    requires
        call_ensures(Exec::next, (exec, ExecEvent::Siblings(n)), action),
        old(exec).wf(),
        fits(old(exec).state, ExecEvent::Siblings(n)),
    ensures
        n > 0 ==> {
            &&& (old(exec).state is Listing <==> action is Zap)
            &&& (old(exec).state is Checking <==> action is Register)
            &&& (old(exec).state is Rechecking <==> action is Sleep)
        },
        n == 0 && old(exec).state is Listing ==> action == ExecAction::Perform(
            CommitOp::ReplaceAddressSpace,
        ) && final(exec).state == ExecState::Committing(0),
        n == 0 && !(old(exec).state is Listing) ==> action is ListSiblings && final(exec).state is
            Listing,
{
}

/// What was told, arranged or slept for is followed by another look at the
/// threads; and each operation of the takeover by the next one, up to the last,
/// after which the call succeeds.
pub proof fn law_what_is_done_leads_on(exec: &mut Exec, action: ExecAction)
    requires
        call_ensures(Exec::next, (exec, ExecEvent::Done), action),
        old(exec).wf(),
        fits(old(exec).state, ExecEvent::Done),
    ensures
        old(exec).state is Zapping || old(exec).state is Sleeping ==> action is ListSiblings
            && final(exec).state is Checking,
        old(exec).state is Registering ==> action is ListSiblings && final(exec).state is
            Rechecking,
        old(exec).state matches ExecState::Committing(at) ==> {
            let ops = commit_ops(old(exec).my_tid, old(exec).tgid);
            if at + 1 < ops.len() {
                action == ExecAction::Perform(ops[at + 1]) && final(exec).state
                    == ExecState::Committing((at + 1) as usize)
            } else {
                action == ExecAction::Return(Ok(0)) && final(exec).state is Finished
            }
        },
{
}

/// `execveat` knows two flags, and tells unknown ones before all else. A program
/// is executed under the path that denotes it; an anonymous file in memory goes
/// by its name, and nothing else without a path can be executed.
pub proof fn law_execveat_names_its_program(
    flags: u32,
    target: AxResult<ExecTarget>,
    path: String,
    r: AxResult<String>,
)
    requires
        call_ensures(sys_execveat, (flags, target, path), r),
    ensures
        ({
            let unknown = flags & !0x1100u32 != 0;
            &&& unknown ==> r == Err::<String, AxError>(AxError::InvalidInput)
            &&& !unknown ==> {
                &&& r is Ok <==> target is Ok && !(target->Ok_0 is Anonymous)
                &&& target matches Err(e) ==> r == Err::<String, AxError>(e)
                &&& target matches Ok(ExecTarget::Anonymous) ==> r == Err::<String, AxError>(
                    AxError::PermissionDenied,
                )
                &&& target matches Ok(ExecTarget::File { absolute_path }) ==> r->Ok_0@ == (
                if absolute_path is Some {
                    absolute_path->0@
                } else {
                    path@
                })
                &&& target matches Ok(ExecTarget::Memfd { name }) ==> {
                    let text = r->Ok_0@;
                    &&& text.len() == 7 + name@.len() + 10
                    &&& text.subrange(0, 7) == "/memfd:"@
                    &&& text.subrange(7, 7 + name@.len() as int) == name@
                    &&& text.skip(7 + name@.len() as int) == " (deleted)"@
                }
            }
        }),
{
    reveal_strlit("/memfd:");
    reveal_strlit(" (deleted)");
    if let Ok(ExecTarget::Memfd { name }) = target {
        if flags & !0x1100u32 == 0 {
            let text = r->Ok_0@;
            assert(text.subrange(0, 7) =~= "/memfd:"@);
            assert(text.subrange(7, 7 + name@.len() as int) =~= name@);
            assert(text.skip(7 + name@.len() as int) =~= " (deleted)"@);
        }
    }
}

/// A program always has an argument: an empty one, if it is given none.
pub proof fn law_there_is_always_an_argument(args: Vec<String>, r: Vec<String>)
    requires
        call_ensures(normalize_args, (args,), r),
    ensures
        r@.len() >= 1,
        forall|i: int| 0 <= i < args@.len() ==> r@[i] == #[trigger] args@[i],
        args@.len() > 0 ==> r@.len() == args@.len(),
        args@.len() == 0 ==> r@.len() == 1 && r@[0]@.len() == 0,
{
}

/// The strings of a list, one by one.
pub proof fn lemma_texts(list: Seq<String>)
    ensures
        texts(list).len() == list.len(),
        forall|i: int| 0 <= i < list.len() ==> #[trigger] texts(list)[i] == list[i]@,
{
}

/// The strings of a list that begins with `head`, one by one.
pub proof fn lemma_texts_behind(list: Seq<String>, head: Seq<char>, rest: Seq<String>)
    requires
        texts(list) == seq![head] + texts(rest),
    ensures
        list.len() == rest.len() + 1,
        list[0]@ == head,
        forall|i: int| 0 <= i < rest.len() ==> list[i + 1]@ == (#[trigger] rest[i])@,
{
    lemma_texts(list);
    lemma_texts(rest);
    assert(texts(list)[0] == head);
    assert forall|i: int| 0 <= i < rest.len() implies list[i + 1]@ == (#[trigger] rest[i])@ by {
        assert(texts(list)[i + 1] == texts(rest)[i]);
    }
}

/// The shell is given its own path and then the arguments, in their order.
pub proof fn law_shell_is_given_all_arguments(args: &Vec<String>, r: Vec<String>)
    requires
        call_ensures(shell_args, (args,), r),
    ensures
        r@.len() == args@.len() + 1,
        r@[0]@ == "/bin/sh"@,
        forall|i: int| 0 <= i < args@.len() ==> r@[i + 1]@ == (#[trigger] args@[i])@,
{
    lemma_texts_behind(r@, "/bin/sh"@, args@);
}

/// A program that can be loaded is what runs. One that is not executable is run
/// by the shell, which then is the executable, and is given the program's
/// arguments behind its own path. Every other error is that of the call, and so
/// is that of a shell that is not found.
pub proof fn law_program_or_shell_runs(
    first: AxResult<()>,
    program: Program,
    shell: AxResult<Shell>,
    r: AxResult<Program>,
)
    requires
        call_ensures(program_to_run, (first, program, shell), r),
    ensures
        first is Ok ==> r == Ok::<Program, AxError>(program),
        first is Err && first->Err_0 != AxError::InvalidExecutable ==> r == Err::<Program, AxError>(
            first->Err_0,
        ),
        first == Err::<(), AxError>(AxError::InvalidExecutable) ==> (r is Ok <==> shell is Ok),
        first == Err::<(), AxError>(AxError::InvalidExecutable) && shell is Err ==> r == Err::<
            Program,
            AxError,
        >(shell->Err_0),
        first == Err::<(), AxError>(AxError::InvalidExecutable) && shell is Ok ==> {
            let p = r->Ok_0;
            &&& p.name == shell->Ok_0.name
            &&& p.exe_path == shell->Ok_0.exe_path
            &&& p.path@ == "/bin/sh"@
            &&& p.args@.len() == program.args@.len() + 1
            &&& p.args@[0]@ == "/bin/sh"@
            &&& forall|i: int|
                0 <= i < program.args@.len() ==> p.args@[i + 1]@ == (#[trigger] program.args@[i])@
        },
{
    if first == Err::<(), AxError>(AxError::InvalidExecutable) && shell is Ok {
        lemma_texts_behind(r->Ok_0.args@, "/bin/sh"@, program.args@);
    }
}

/// A program is recorded under its absolute path, if it has one, and loaded
/// under the path that was given.
pub proof fn law_requested_program_is_as_asked(
    name: String,
    path: String,
    absolute_path: Option<String>,
    args: Vec<String>,
    r: Program,
)
    requires
        call_ensures(requested_program, (name, path, absolute_path, args), r),
    ensures
        r.name@ == name@,
        r.path@ == path@,
        absolute_path matches Some(p) ==> r.exe_path@ == p@,
        absolute_path is None ==> r.exe_path@ == path@,
        args@.len() > 0 ==> r.args@.len() == args@.len(),
        forall|i: int| 0 <= i < args@.len() ==> r.args@[i]@ == (#[trigger] args@[i])@,
        args@.len() == 0 ==> r.args@.len() == 1 && r.args@[0]@.len() == 0,
{
    lemma_texts(r.args@);
    lemma_texts(args@);
    assert forall|i: int| 0 <= i < args@.len() implies r.args@[i]@ == (#[trigger] args@[i])@ by {
        assert(texts(r.args@)[i] == texts(args@)[i]);
    }
    if args@.len() == 0 {
        assert(texts(r.args@)[0] == Seq::<char>::empty());
    }
}

/// The new image has the address space to itself, and what is replaced is
/// handed out; nothing else of the process changes.
pub proof fn law_new_address_space_is_private<A, W>(
    data: &mut ProcessData<A, W>,
    new_aspace: A,
    r: A,
)
    requires
        call_ensures(replace_address_space, (data, new_aspace), r),
    ensures
        r == old(data).aspace,
        final(data).aspace == new_aspace,
        !final(data).vm_aspace_shared,
        final(data).aspace_slot_released == old(data).aspace_slot_released,
        final(data).proc == old(data).proc && final(data).umask == old(data).umask,
        final(data).vfork_done == old(data).vfork_done,
        final(data).job_control == old(data).job_control,
        final(data).children_cpu_time == old(data).children_cpu_time,
{
}

/// What a process is said to run is the new image, with a heap that is empty;
/// its place in the tree, its settings and its times stay.
pub proof fn law_new_image_is_recorded<A, W>(
    data: &mut ProcessData<A, W>,
    exe_path: String,
    args: Vec<String>,
    auxv: Vec<AuxEntry>,
    heap_base: usize,
)
    requires
        call_ensures(install_image, (data, exe_path, args, auxv, heap_base), ()),
    ensures
        final(data).exe_path@ == exe_path@,
        final(data).cmdline@ == args@,
        final(data).auxv@ == auxv@,
        final(data).heap_top == heap_base,
        final(data).proc == old(data).proc && final(data).aspace == old(data).aspace,
        final(data).exit_signal == old(data).exit_signal,
        final(data).wait_parent_tid == old(data).wait_parent_tid,
        final(data).umask == old(data).umask && final(data).nice == old(data).nice,
        final(data).dumpable == old(data).dumpable,
        final(data).personality == old(data).personality,
        final(data).children_cpu_time == old(data).children_cpu_time,
        final(data).vfork_done == old(data).vfork_done,
        final(data).job_control == old(data).job_control,
{
}

/// No pointer into the old image is kept; the rights of the thread are.
pub proof fn law_no_pointer_into_the_old_image_is_kept<C, S>(thr: &mut Thread<C, S>)
    requires
        call_ensures(forget_user_pointers, (thr,), ()),
    ensures
        final(thr).clear_child_tid == 0 && final(thr).robust_list_head == 0,
        final(thr).rseq_area == 0 && final(thr).rseq_signature == 0,
        final(thr).tid == old(thr).tid && final(thr).cred == old(thr).cred,
        final(thr).seccomp == old(thr).seccomp,
        final(thr).no_new_privs == old(thr).no_new_privs,
        final(thr).exit_request == old(thr).exit_request && final(thr).exit == old(thr).exit,
        final(thr).pdeathsig == old(thr).pdeathsig,
        final(thr).oom_score_adj == old(thr).oom_score_adj,
{
}

/// A thread that takes over the id of the leader has that id, and is otherwise
/// the thread that it was.
pub proof fn law_leader_id_is_taken_over<C, S>(thr: &mut Thread<C, S>, tgid: u32)
    requires
        call_ensures(adopt_leader_id, (thr, tgid), ()),
    ensures
        final(thr).tid == tgid,
        final(thr).cred == old(thr).cred && final(thr).seccomp == old(thr).seccomp,
        final(thr).no_new_privs == old(thr).no_new_privs,
        final(thr).exit_request == old(thr).exit_request && final(thr).exit == old(thr).exit,
        final(thr).clear_child_tid == old(thr).clear_child_tid,
{
}

/// The word of eight bytes, lowest first, that memory holds at an address.
pub open spec fn memory_word(mem: spec_fn(int) -> u8, at: int) -> int {
    number_at(Seq::new(8, |j: int| mem(at + j)), 0, 8)
}

/// On memory that does not change meanwhile, the vector of pointers that is
/// loaded is the one that is there: the words from `ptr` on, up to the first
/// that is null. A null vector is an empty one, and is not looked at.
pub proof fn law_string_vector_is_loaded<V: VmIo>(
    vm: &mut UserMemory<V>,
    ptr: usize,
    v: Vec<usize>,
    mem: spec_fn(int) -> u8,
)
    requires
        call_ensures(load_string_pointers, (vm, ptr), Ok(v)),
        shows(final(vm).accesses().skip(old(vm).accesses().len() as int), mem),
        usize::BITS == 64,
    ensures
        ptr == 0 ==> v@.len() == 0 && final(vm).accesses() == old(vm).accesses(),
        ptr != 0 ==> {
            &&& ptr % 8 == 0
            &&& forall|i: int|
                0 <= i < v@.len() ==> #[trigger] v@[i] == memory_word(mem, ptr + 8 * i) && v@[i] != 0
            &&& memory_word(mem, ptr + 8 * v@.len()) == 0
        },
{
    let reads = final(vm).accesses().skip(old(vm).accesses().len() as int);
    if ptr == 0 {
        assert(final(vm).accesses() =~= old(vm).accesses() + reads);
    } else {
        let data = choose|data: Seq<u8>|
            #![trigger addresses_in(data)]
            until_nul_outcome(ptr as int, 8, reads, Ok(data)) && v@ == addresses_in(data);
        law_until_nul_loads_the_array(ptr as int, 8, reads, data, mem);
        assert(data.len() as int / 8 == v@.len());
        assert forall|i: int| 0 <= i < v@.len() implies #[trigger] v@[i] == memory_word(
            mem,
            ptr + 8 * i,
        ) && v@[i] != 0 by {
            let b = data.subrange(8 * i, 8 * i + 8);
            let m = Seq::new(8, |j: int| mem(ptr + 8 * i + j));
            assert(b =~= m);
            law_word_is_a_number(b);
            law_word_of_bytes(b);
            let e = memory_element(mem, ptr as int, 8, i);
            assert(e =~= b);
            if word_value(b) == 0 {
                assert(all_zero(e));
            }
        }
        let n = v@.len() as int;
        let e = memory_element(mem, ptr as int, 8, n);
        let m = Seq::new(8, |j: int| mem(ptr + 8 * n + j));
        assert(e =~= m);
        law_word_is_a_number(m);
    }
}

/// An executable has its absolute path, and else the name that it was given.
pub proof fn law_executable_has_its_absolute_path(
    absolute_path: Option<String>,
    path: String,
    r: String,
)
    requires
        call_ensures(exe_path_of, (absolute_path, path), r),
    ensures
        absolute_path matches Some(p) ==> r@ == p@,
        absolute_path is None ==> r@ == path@,
{
}

/// The siblings of a thread are all threads that its process had but itself.
pub proof fn law_siblings_are_all_but_the_caller(process: &Process, my_tid: u32, r: Vec<u32>)
    requires
        call_ensures(siblings_now, (process, my_tid), r),
    ensures
        exists|threads: Vec<u32>| #[trigger]
            call_ensures(Process::threads, (process,), threads) && r@ == threads@.filter(
                |tid: u32| tid != my_tid,
            ),
        forall|i: int, j: int| 0 <= i < j < r@.len() ==> r@[i] < r@[j],
{
    let threads = choose|threads: Vec<u32>|
        #[trigger] call_ensures(Process::threads, (process,), threads) && r@ == others(
            threads@,
            my_tid,
        );
    lemma_others(threads@, my_tid);
}

/// Scripts are executed by the shell.
pub proof fn law_shell_is_where_it_belongs(r: String)
    requires
        call_ensures(shell_path, (), r),
    ensures
        r@ == seq!['/', 'b', 'i', 'n', '/', 's', 'h'],
{
    reveal_strlit("/bin/sh");
}

/// A vector of pointers that is not aligned is refused unread; a read that failed
/// is the reason why it is not loaded; and one whose words up to the limit of
/// 131072 bytes are all there but none of them null is too long. Otherwise only
/// the end of the addresses keeps it from being loaded.
pub proof fn law_string_vector_is_refused<V: VmIo>(
    vm: &mut UserMemory<V>,
    ptr: usize,
    e: AxError,
    mem: spec_fn(int) -> u8,
)
    requires
        call_ensures(load_string_pointers, (vm, ptr), Err(e)),
        shows(final(vm).accesses().skip(old(vm).accesses().len() as int), mem),
    ensures
        ptr != 0,
        ({
            let reads = final(vm).accesses().skip(old(vm).accesses().len() as int);
            &&& ptr % 8 != 0 ==> reads.len() == 0 && e is BadAddress
            &&& ptr % 8 == 0 ==> reads_on(ptr as int, reads)
            &&& ptr % 8 == 0 && !all_worked(reads) ==> e == ax_error_of(
                reads.last()->outcome->Err_0,
            )
            &&& ptr % 8 == 0 && all_worked(reads) ==> {
                ||| e is NameTooLong && forall|i: int|
                    0 <= i < 16384 ==> #[trigger] memory_word(mem, ptr + 8 * i) != 0
                ||| e is BadAddress && reads_end(ptr as int, reads) + 32 > usize::MAX
            }
        }),
{
    let reads = final(vm).accesses().skip(old(vm).accesses().len() as int);
    let p = ptr as int;
    if ptr != 0 && ptr % 8 == 0 {
        let cause = choose|cause: crate::vm::VmError|
            #![trigger ax_error_of(cause)]
            until_nul_outcome(p, 8, reads, Err(cause)) && e == ax_error_of(cause);
        lemma_reads_on(p, 8, reads, Err(cause));
        lemma_failed_search(p, 8, reads, cause);
        if all_worked(reads) && cause is TooLong {
            assert forall|i: int| 0 <= i < 16384 implies #[trigger] memory_word(mem, p + 8 * i)
                != 0 by {
                law_too_long_means_not_terminated(p, 8, reads, mem, i);
                lemma_word_not_null(mem, p, i);
            }
        }
    }
}

/// A word with a byte that is not zero is not null.
proof fn lemma_word_not_null(mem: spec_fn(int) -> u8, ptr: int, i: int)
    requires
        !all_zero(memory_element(mem, ptr, 8, i)),
    ensures
        memory_word(mem, ptr + 8 * i) != 0,
{
    let b = memory_element(mem, ptr, 8, i);
    let m = Seq::new(8, |j: int| mem(ptr + 8 * i + j));
    assert(b =~= m);
    law_word_is_a_number(b);
    if word_value(b) == 0 {
        assert(all_zero(b));
    }
}

/// An `execve` is of its thread and its process, and begins by taking the lock.
pub proof fn law_execve_begins_with_the_lock(my_tid: u32, tgid: u32, r: Exec)
    requires
        call_ensures(Exec::new, (my_tid, tgid), r),
    ensures
        r.my_tid == my_tid && r.tgid == tgid && r.state is Locking,
{
}

} // verus!
