use starry_task::arch::Arch;
use starry_task::auxv::AuxEntry;
use starry_task::errno::AxError;
use starry_task::loader::{
    copy_from_kernel, hwcap_value, interp_path, load_user_app, map_trampoline,
    new_user_aspace_empty, plan_stack, script_args, shell_redirect, AppAction, AppEvent, AppState, AreaMapping, ElfLoad,
    EntryOutcome, LoadAction, LoadEnd, LoadEvent, LoadState, UserLayout,
};
use starry_task::paging::MappingFlags;
use starry_task::text::{
    begins_script, script_text, split_interpreter_line, terminated_text, trim,
};

const LAYOUT: UserLayout = UserLayout {
    space_base: 0x1000,
    space_size: 0x7fff_ffff_f000,
    stack_top: 0x0400_0000_0000,
    stack_size: 0x80_0000,
    heap_base: 0x4000_0000,
    heap_size: 0x1_0000,
    signal_trampoline: 0x6000_1000,
};

fn strings(list: &[&str]) -> Vec<String> {
    list.iter().map(|s| s.to_string()).collect()
}

#[test]
fn white_space_is_trimmed() {
    assert_eq!(trim(" \t a b\u{3000}\n", false), "a b");
    assert_eq!(trim("\u{a0}a\u{a0}", true), "\u{a0}a\u{a0}");
    assert_eq!(trim("\u{b}a\u{c}", true), "\u{b}a");
    assert_eq!(trim("\u{b}a\u{c}", false), "a");
    assert_eq!(trim("   ", false), "");
    for c in (0..=0x10_ffffu32).filter_map(char::from_u32) {
        let s = c.to_string();
        assert_eq!(trim(&s, false), s.trim());
        assert_eq!(trim(&s, true), s.trim_ascii());
    }
}

#[test]
fn an_interpreter_line_has_at_most_two_words() {
    assert_eq!(split_interpreter_line("/bin/sh"), strings(&["/bin/sh"]));
    assert_eq!(
        split_interpreter_line("  /usr/bin/env   python3 -u  "),
        strings(&["/usr/bin/env", "python3 -u"])
    );
    assert_eq!(split_interpreter_line("   "), strings(&[""]));
}

#[test]
fn the_line_of_a_script_ends_at_the_limit() {
    assert!(begins_script(b"#!x"));
    assert!(!begins_script(b"#"));
    assert_eq!(script_text(b"#!/bin/sh -e\nexit").unwrap(), "/bin/sh -e");
    let mut long = b"#!".to_vec();
    long.resize(1000, b'a');
    assert_eq!(script_text(&long).unwrap(), "a".repeat(254));
    assert!(script_text(b"#!\xff\n").is_none());
}

#[test]
fn a_path_has_one_terminator_at_its_end() {
    assert_eq!(terminated_text(b"/lib/ld.so\0").unwrap(), "/lib/ld.so");
    assert_eq!(interp_path(b"/lib/ld.so\0"), Ok(String::from("/lib/ld.so")));
    for bad in [&b""[..], b"/lib/ld.so", b"/lib\0ld.so\0", b"\xff\0"] {
        assert_eq!(interp_path(bad), Err(AxError::InvalidInput));
    }
}

#[test]
fn shell_scripts_are_given_to_the_shell() {
    let args = strings(&["run", "x"]);
    assert_eq!(
        shell_redirect("/tmp/run.sh", &args),
        Some(strings(&["/bin/sh", "run", "x"]))
    );
    assert_eq!(shell_redirect(".sh", &vec![]), Some(strings(&["/bin/sh"])));
    assert_eq!(shell_redirect("/bin/sh", &args), None);
    assert_eq!(shell_redirect("sh", &args), None);
}

#[test]
fn scripts_are_given_to_their_interpreter() {
    let args = strings(&["script", "one", "two"]);
    assert_eq!(
        script_args(b"#! /usr/bin/env  perl \nprint", "/tmp/s", &args),
        Ok(strings(&["/usr/bin/env", "perl", "/tmp/s", "one", "two"]))
    );
    assert_eq!(
        script_args(b"#!/bin/cat", "/tmp/s", &vec![]),
        Ok(strings(&["/bin/cat", "/tmp/s"]))
    );
    assert_eq!(
        script_args(b"#!\xfe\n", "/tmp/s", &args),
        Err(AxError::InvalidInput)
    );
    assert_eq!(
        script_args(b"plain text", "/tmp/s", &args),
        Err(AxError::InvalidExecutable)
    );
}

fn drive(events: &[LoadEvent]) -> (Vec<LoadAction>, LoadState) {
    let mut load = ElfLoad::new();
    let actions = events.iter().map(|e| load.next(*e)).collect();
    (actions, load.state)
}

#[test]
fn a_remembered_static_program_is_mapped_at_once() {
    let ok = LoadEvent::Outcome(Ok(()));
    let (actions, state) = drive(&[LoadEvent::Found(true), ok, LoadEvent::Found(false), ok]);
    assert_eq!(
        actions,
        vec![
            LoadAction::ClearAndMapTrampoline,
            LoadAction::FindLinker,
            LoadAction::MapProgram,
            LoadAction::Return(LoadEnd::Loaded),
        ]
    );
    assert_eq!(state, LoadState::Finished);
}

#[test]
fn a_dynamic_program_is_mapped_with_its_linker() {
    let ok = LoadEvent::Outcome(Ok(()));
    let elf = LoadEvent::Entry(EntryOutcome::Elf);
    let (actions, _) = drive(&[
        LoadEvent::Found(false),
        elf,
        ok,
        LoadEvent::Found(true),
        ok,
        ok,
        LoadEvent::Found(false),
        elf,
        ok,
        ok,
    ]);
    assert_eq!(
        actions,
        vec![
            LoadAction::ReadProgram,
            LoadAction::ClearAndMapTrampoline,
            LoadAction::FindLinker,
            LoadAction::ReadLinkerPath,
            LoadAction::ResolveLinker,
            LoadAction::LookUpLinker,
            LoadAction::ReadLinker,
            LoadAction::MapProgram,
            LoadAction::MapLinker,
            LoadAction::Return(LoadEnd::Loaded),
        ]
    );
}

#[test]
fn failures_end_the_loading_of_an_image() {
    let not_elf = LoadEvent::Entry(EntryOutcome::NotElf);
    let ok = LoadEvent::Outcome(Ok(()));
    let found = LoadEvent::Found(true);
    let absent = LoadEvent::Found(false);
    let (actions, _) = drive(&[absent, not_elf]);
    assert_eq!(actions[1], LoadAction::Return(LoadEnd::NotElf));
    let (actions, _) = drive(&[found, ok, found, ok, ok, absent, not_elf]);
    assert_eq!(
        actions[6],
        LoadAction::Return(LoadEnd::Failed(AxError::InvalidInput))
    );
    let failed = LoadEvent::Outcome(Err(AxError::BadAddress));
    let (actions, _) = drive(&[found, failed]);
    assert_eq!(
        actions[1],
        LoadAction::Return(LoadEnd::Failed(AxError::BadAddress))
    );
}

#[test]
fn a_program_is_loaded_step_by_step() {
    let ok = AppEvent::Outcome(Ok(()));
    let mut state = AppState::Deciding;
    let mut actions = Vec::new();
    for event in [
        AppEvent::ShellScript(true),
        ok,
        AppEvent::ShellScript(false),
        AppEvent::Image(LoadEnd::NotElf),
        ok,
        ok,
        AppEvent::ShellScript(false),
        AppEvent::Image(LoadEnd::Loaded),
        ok,
        ok,
        ok,
        ok,
    ] {
        let (next, action) = load_user_app(state, event);
        state = next;
        actions.push(action);
    }
    assert_eq!(
        actions,
        vec![
            AppAction::ResolveShell,
            AppAction::Decide,
            AppAction::LoadImage,
            AppAction::ReadScript,
            AppAction::ResolveInterpreter,
            AppAction::Decide,
            AppAction::LoadImage,
            AppAction::MapStack,
            AppAction::Populate,
            AppAction::StoreContents,
            AppAction::MapHeap,
            AppAction::Return(Ok(())),
        ]
    );
    assert_eq!(
        load_user_app(
            AppState::ReadingScript,
            AppEvent::Outcome(Err(AxError::InvalidExecutable))
        )
        .1,
        AppAction::Return(Err(AxError::InvalidExecutable))
    );
}

#[test]
fn the_stack_and_the_heap_are_planned() {
    let args = strings(&["/bin/true"]);
    let auxv = vec![AuxEntry { kind: 6, value: 4096 }];
    let plan = plan_stack(&LAYOUT, &args, &vec![], &auxv);
    let flags = MappingFlags { read: true, write: true, execute: false, user: true };
    assert_eq!(
        plan.stack,
        AreaMapping { start: 0x03ff_ff80_0000, size: 0x80_0000, flags, populate: false }
    );
    assert_eq!(
        plan.heap,
        AreaMapping { start: 0x4000_0000, size: 0x1_0000, flags, populate: true }
    );
    assert_eq!(plan.user_sp, 0x0400_0000_0000 - plan.contents.len());
    assert_eq!(plan.user_sp % 16, 0);
    assert_eq!(plan.populate_start, 0x03ff_ffff_f000);
    assert_eq!(plan.populate_size, 4096);
}

#[test]
fn the_trampoline_can_be_executed() {
    let m = map_trampoline(&LAYOUT);
    assert_eq!((m.start, m.size), (0x6000_1000, 4096));
    assert!(m.flags.read && m.flags.execute && m.flags.user && !m.flags.write);
    assert_eq!(new_user_aspace_empty(&LAYOUT), (0x1000, 0x7fff_ffff_f000));
    assert_eq!(hwcap_value(Arch::X86_64), 0);
    assert_eq!(hwcap_value(Arch::Aarch64), 0);
    assert_eq!(hwcap_value(Arch::Loongarch64), 0x3f);
    let letters = b"IMAFDC".iter().map(|c| 1usize << (c - b'A')).sum();
    assert_eq!(hwcap_value(Arch::Riscv64), letters);
    assert_eq!(hwcap_value(Arch::Riscv64), 0x112d);
    assert!(copy_from_kernel(Arch::X86_64) && copy_from_kernel(Arch::Riscv64));
    assert!(!copy_from_kernel(Arch::Aarch64) && !copy_from_kernel(Arch::Loongarch64));
}
