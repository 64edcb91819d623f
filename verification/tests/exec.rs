use std::sync::Arc;

use starry_process::Process;
use starry_task::errno::AxError;
use starry_task::exec::{
    adopt_leader_id, cloexec_fds, exe_path_of, forget_user_pointers, load_string_pointers,
    normalize_args, program_to_run, rename_thread, requested_program, shell_args, siblings,
    siblings_now, sys_execveat, CommitOp, Exec, ExecAction, ExecEvent, ExecState, ExecTarget,
    Program, Shell, AT_EMPTY_PATH,
};
use starry_task::thread::Thread;
use starry_task::vm::{VmError, VmResult};
use starry_task::vm_io::{UserMemory, VmIo};

struct Memory {
    bytes: Vec<u8>,
}

impl VmIo for Memory {
    fn new() -> Self {
        Memory { bytes: Vec::new() }
    }

    fn read(&mut self, start: usize, buf: &mut [u8]) -> VmResult<()> {
        let end = start.checked_add(buf.len()).ok_or(VmError::BadAddress)?;
        if end > self.bytes.len() {
            return Err(VmError::BadAddress);
        }
        buf.copy_from_slice(&self.bytes[start..end]);
        Ok(())
    }

    fn write(&mut self, _start: usize, _buf: &[u8]) -> VmResult<()> {
        Err(VmError::AccessDenied)
    }
}

#[test]
fn vectors_of_strings_end_with_a_null_address() {
    let mut bytes = vec![0; 32];
    for word in [0x1000u64, 0x2000, 0, 0x3000] {
        bytes.extend_from_slice(&word.to_le_bytes());
    }
    let mut vm = UserMemory::over(Memory { bytes });
    assert_eq!(load_string_pointers(&mut vm, 32), Ok(vec![0x1000, 0x2000]));
    assert_eq!(load_string_pointers(&mut vm, 0), Ok(vec![]));
    assert_eq!(load_string_pointers(&mut vm, 36), Err(AxError::BadAddress));
    assert_eq!(load_string_pointers(&mut vm, 64), Err(AxError::BadAddress));
    let mut endless = UserMemory::over(Memory { bytes: vec![1; 200_000] });
    assert_eq!(load_string_pointers(&mut endless, 8), Err(AxError::NameTooLong));
}

#[test]
fn there_is_always_an_argument() {
    assert_eq!(normalize_args(vec![]), vec![String::new()]);
    assert_eq!(normalize_args(vec![String::from("a")]), vec![String::from("a")]);
    assert_eq!(
        shell_args(&vec![String::from("a"), String::from("b")]),
        vec![String::from("/bin/sh"), String::from("a"), String::from("b")]
    );
}

#[test]
fn programs_are_executed_under_a_name() {
    let name = |flags, target| sys_execveat(flags, target, String::from("given"));
    let file = |p: Option<&str>| Ok(ExecTarget::File { absolute_path: p.map(String::from) });
    assert_eq!(name(0, file(Some("/bin/x"))), Ok(String::from("/bin/x")));
    assert_eq!(name(AT_EMPTY_PATH, file(None)), Ok(String::from("given")));
    assert_eq!(
        name(AT_EMPTY_PATH, Ok(ExecTarget::Memfd { name: String::from("m") })),
        Ok(String::from("/memfd:m (deleted)"))
    );
    assert_eq!(name(0, Ok(ExecTarget::Anonymous)), Err(AxError::PermissionDenied));
    assert_eq!(name(0, Err(AxError::Code(2))), Err(AxError::Code(2)));
    assert_eq!(name(1, Err(AxError::Code(2))), Err(AxError::InvalidInput));
    assert_eq!(exe_path_of(None, String::from("p")), "p");
}

#[test]
fn siblings_are_the_other_threads() {
    assert_eq!(siblings(&vec![1, 2, 3, 2], 2), vec![1, 3]);
    assert_eq!(siblings(&vec![2], 2), Vec::<u32>::new());
    let process = Process::new_init(1);
    for tid in [9, 1, 4] {
        process.add_thread(tid);
    }
    assert_eq!(siblings_now(&process, 4), vec![1, 9]);
}

#[test]
fn marked_descriptors_are_closed() {
    assert_eq!(
        cloexec_fds(&vec![(0, false), (3, true), (4, false), (7, true)]),
        vec![3, 7]
    );
}

#[test]
fn pointers_into_the_old_image_are_forgotten() {
    let mut t = Thread::new(9, Arc::new(0u32), ());
    t.set_clear_child_tid(1);
    t.set_robust_list_head(2);
    t.set_rseq_state(3, 4);
    t.set_pdeathsig(5);
    forget_user_pointers(&mut t);
    assert_eq!((t.clear_child_tid(), t.robust_list_head()), (0, 0));
    assert_eq!((t.rseq_area(), t.rseq_signature(), t.pdeathsig()), (0, 0, 5));
    adopt_leader_id(&mut t, 1);
    assert_eq!(t.tid(), 1);
}

fn ok() -> ExecEvent {
    ExecEvent::Outcome(Ok(()))
}

fn loaded(my_tid: u32, tgid: u32) -> Exec {
    let mut exec = Exec::new(my_tid, tgid);
    let locked = ExecEvent::LockTried { acquired: true, exit_requested: false };
    assert_eq!(exec.next(locked), ExecAction::BuildAddressSpace);
    assert_eq!(exec.next(ok()), ExecAction::Load);
    assert_eq!(exec.next(ok()), ExecAction::ListSiblings);
    exec
}

fn commit(exec: &mut Exec, first: ExecAction) -> Vec<CommitOp> {
    let mut ops = Vec::new();
    let mut action = first;
    while let ExecAction::Perform(op) = action {
        ops.push(op);
        action = exec.next(ExecEvent::Done);
    }
    assert_eq!(action, ExecAction::Return(Ok(0)));
    assert_eq!(exec.state, ExecState::Finished);
    ops
}

#[test]
fn the_leader_takes_over_alone() {
    let mut exec = loaded(5, 5);
    let first = exec.next(ExecEvent::Siblings(0));
    assert_eq!(
        commit(&mut exec, first),
        vec![
            CommitOp::ReplaceAddressSpace,
            CommitOp::SwitchPageTable,
            CommitOp::InstallImage,
            CommitOp::ResetSignals,
            CommitOp::ClearTimers,
            CommitOp::ForgetUserPointers,
            CommitOp::CloseOnExec,
            CommitOp::ResetContext,
            CommitOp::NotifyVfork,
        ]
    );
}

#[test]
fn another_thread_becomes_the_leader() {
    let mut exec = loaded(9, 5);
    assert_eq!(exec.next(ExecEvent::Siblings(2)), ExecAction::Zap);
    assert_eq!(exec.next(ExecEvent::Done), ExecAction::ListSiblings);
    assert_eq!(exec.next(ExecEvent::Siblings(2)), ExecAction::Register);
    assert_eq!(exec.next(ExecEvent::Done), ExecAction::ListSiblings);
    assert_eq!(exec.next(ExecEvent::Siblings(1)), ExecAction::Sleep);
    assert_eq!(exec.next(ExecEvent::Done), ExecAction::ListSiblings);
    // All are gone, but the list is made once more.
    assert_eq!(exec.next(ExecEvent::Siblings(0)), ExecAction::ListSiblings);
    let first = exec.next(ExecEvent::Siblings(0));
    let ops = commit(&mut exec, first);
    assert_eq!(ops.len(), 10);
    assert_eq!(ops[7], CommitOp::AdoptLeaderId { from: 9, to: 5 });
    assert_eq!(ops[9], CommitOp::NotifyVfork);
}

#[test]
fn a_thread_that_is_to_exit_gives_up() {
    let mut exec = Exec::new(5, 5);
    let busy = |exit_requested| ExecEvent::LockTried { acquired: false, exit_requested };
    assert_eq!(exec.next(busy(false)), ExecAction::YieldAndTryLock);
    assert_eq!(
        exec.next(busy(true)),
        ExecAction::Return(Err(AxError::Interrupted))
    );
}

#[test]
fn the_shell_is_tried_once() {
    let noexec = ExecEvent::Outcome(Err(AxError::InvalidExecutable));
    let mut exec = Exec::new(5, 5);
    exec.next(ExecEvent::LockTried { acquired: true, exit_requested: false });
    exec.next(ok());
    assert_eq!(exec.next(noexec), ExecAction::FindShell);
    assert_eq!(exec.next(ok()), ExecAction::LoadShell);
    assert_eq!(
        exec.next(noexec),
        ExecAction::Return(Err(AxError::InvalidExecutable))
    );
}

#[test]
fn other_failures_end_the_call() {
    let failed = ExecEvent::Outcome(Err(AxError::Code(12)));
    let mut exec = Exec::new(5, 5);
    exec.next(ExecEvent::LockTried { acquired: true, exit_requested: false });
    assert_eq!(exec.next(failed), ExecAction::Return(Err(AxError::Code(12))));
    assert_eq!(exec.state, ExecState::Finished);
}

#[test]
fn what_is_not_executable_is_left_to_the_shell() {
    let text = String::from;
    let program = || requested_program(text("run"), text("./run"), Some(text("/a/run")), vec![text("run"), text("x")]);
    let shell = || Ok(Shell { name: text("busybox"), exe_path: text("/bin/busybox") });
    let parts = |p: Program| (p.name, p.path, p.exe_path, p.args);
    let own = parts(program());
    assert_eq!(own, (text("run"), text("./run"), text("/a/run"), vec![text("run"), text("x")]));
    assert_eq!(program_to_run(Ok(()), program(), shell()).map(parts), Ok(own));
    assert_eq!(
        program_to_run(Err(AxError::InvalidExecutable), program(), shell()).map(parts),
        Ok((
            text("busybox"),
            text("/bin/sh"),
            text("/bin/busybox"),
            vec![text("/bin/sh"), text("run"), text("x")]
        ))
    );
    assert_eq!(
        program_to_run(Err(AxError::InvalidExecutable), program(), Err(AxError::Code(2))).map(parts),
        Err(AxError::Code(2))
    );
    assert_eq!(
        program_to_run(Err(AxError::InvalidInput), program(), shell()).map(parts),
        Err(AxError::InvalidInput)
    );
    let anonymous = requested_program(text("m"), text("/memfd:m (deleted)"), None, vec![]);
    assert_eq!(anonymous.exe_path, "/memfd:m (deleted)");
    assert_eq!(anonymous.args, vec![String::new()]);
}

#[test]
fn a_thread_takes_the_id_of_the_leader() {
    let process = Process::new_init(1);
    process.add_thread(5);
    rename_thread(&process, 5, 1);
    assert_eq!(process.threads(), vec![1]);
}
