use std::sync::Arc;

use starry_task::clone::{
    child_context, child_thread, sys_clone, CloneArgs, CloneFlags, CloneOp, CloneRun, CloneStep,
    HandlerSource, ThreadContext,
    CLONE_CHILD_CLEARTID, CLONE_CHILD_SETTID, CLONE_CLEAR_SIGHAND, CLONE_DETACHED, CLONE_FILES,
    CLONE_FS, CLONE_PARENT, CLONE_PARENT_SETTID, CLONE_PIDFD, CLONE_SETTLS, CLONE_SIGHAND,
    CLONE_THREAD, CLONE_VFORK, CLONE_VM,
};
use starry_task::errno::AxError;
use starry_task::signo::Signo;
use starry_task::thread::Thread;

fn args(bits: u64, exit_signal: u64) -> CloneArgs {
    CloneArgs {
        flags: CloneFlags { bits },
        exit_signal,
        stack: 0x1000,
        tls: 0x2000,
        parent_tid: 0x3000,
        child_tid: 0x4000,
        pidfd: 0x5000,
    }
}

fn fork_ops(handlers: HandlerSource) -> Vec<CloneOp> {
    vec![
        CloneOp::NewTask { stack: 0x1000, tls: None, set_child_tid: 0 },
        CloneOp::ForkProcess { sibling: false },
        CloneOp::CopyAddressSpace,
        CloneOp::CopyKernelPart,
        CloneOp::UsePageTable,
        CloneOp::NewProcess {
            handlers,
            exit_signal: Some(Signo { number: 17 }),
            vm_shared: false,
        },
        CloneOp::Files { shared: false },
        CloneOp::Directories { shared: false },
        CloneOp::AddThread,
        CloneOp::NewThread { clear_child_tid: None },
        CloneOp::Spawn,
        CloneOp::AddToTable,
    ]
}

#[test]
fn contradicting_arguments_are_rejected() {
    let bad = Err(AxError::InvalidInput);
    assert_eq!(args(CLONE_THREAD | CLONE_VM | CLONE_SIGHAND, 17).validate(), bad);
    assert_eq!(args(CLONE_PARENT, 17).validate(), bad);
    assert_eq!(args(CLONE_THREAD | CLONE_VM, 0).validate(), bad);
    assert_eq!(args(CLONE_THREAD | CLONE_SIGHAND, 0).validate(), bad);
    assert_eq!(args(CLONE_SIGHAND, 17).validate(), bad);
    assert_eq!(
        args(CLONE_THREAD | CLONE_VM | CLONE_SIGHAND | CLONE_VFORK, 0).validate(),
        bad
    );
    assert_eq!(args(CLONE_PIDFD | CLONE_DETACHED, 17).validate(), bad);
    assert_eq!(args(CLONE_THREAD | CLONE_VM | CLONE_SIGHAND, 0).validate(), Ok(()));
    assert_eq!(args(CLONE_PARENT, 0).validate(), Ok(()));
    assert_eq!(args(CLONE_VFORK | CLONE_VM, 17).validate(), Ok(()));
}

#[test]
fn the_exit_signal_has_to_be_a_signal() {
    assert_eq!(args(0, 65).do_clone(), Err(AxError::InvalidInput));
    assert_eq!(args(0, 0x100).do_clone(), Err(AxError::InvalidInput));
    assert!(args(0, 64).do_clone().is_ok());
    assert!(args(0, 0).do_clone().is_ok());
}

#[test]
fn a_fork_copies_everything() {
    assert_eq!(args(0, 17).do_clone(), Ok(fork_ops(HandlerSource::Copied)));
    assert_eq!(
        args(CLONE_CLEAR_SIGHAND, 17).do_clone(),
        Ok(fork_ops(HandlerSource::Default))
    );
}

#[test]
fn a_thread_shares_everything() {
    let flags = CLONE_THREAD
        | CLONE_VM
        | CLONE_SIGHAND
        | CLONE_FILES
        | CLONE_FS
        | CLONE_SETTLS
        | CLONE_PARENT_SETTID
        | CLONE_CHILD_SETTID
        | CLONE_CHILD_CLEARTID;
    assert_eq!(
        args(flags, 0).do_clone(),
        Ok(vec![
            CloneOp::NewTask { stack: 0x1000, tls: Some(0x2000), set_child_tid: 0x4000 },
            CloneOp::StoreParentTid(0x3000),
            CloneOp::ShareProcess,
            CloneOp::AddThread,
            CloneOp::NewThread { clear_child_tid: Some(0x4000) },
            CloneOp::Spawn,
            CloneOp::AddToTable,
        ])
    );
}

#[test]
fn a_vfork_waits_for_its_child() {
    let flags = CLONE_VFORK | CLONE_VM | CLONE_SIGHAND | CLONE_PIDFD | CLONE_FILES | CLONE_FS;
    assert_eq!(
        args(flags, 17).do_clone(),
        Ok(vec![
            CloneOp::NewTask { stack: 0x1000, tls: None, set_child_tid: 0 },
            CloneOp::ForkProcess { sibling: false },
            CloneOp::ShareAddressSpace,
            CloneOp::UsePageTable,
            CloneOp::NewProcess {
                handlers: HandlerSource::Shared,
                exit_signal: Some(Signo { number: 17 }),
                vm_shared: true,
            },
            CloneOp::Files { shared: true },
            CloneOp::Directories { shared: true },
            CloneOp::AddThread,
            CloneOp::NewThread { clear_child_tid: None },
            CloneOp::AddPidFd { thread: false },
            CloneOp::StorePidFd(0x5000),
            CloneOp::ArmVfork,
            CloneOp::Spawn,
            CloneOp::AddToTable,
            CloneOp::WaitVfork,
        ])
    );
}

#[test]
fn registers_make_up_the_arguments() {
    let flags = (CLONE_VM | CLONE_PIDFD) as u32 | 17 | 0x2000;
    let a = sys_clone(flags, 1, 2, 3, 4).unwrap();
    assert_eq!(a.flags.bits, CLONE_VM | CLONE_PIDFD);
    assert!(a.flags.contains(CLONE_PIDFD));
    assert_eq!(
        (a.exit_signal, a.stack, a.parent_tid, a.tls, a.child_tid, a.pidfd),
        (17, 1, 2, 3, 4, 2)
    );
    assert_eq!(sys_clone(17, 1, 2, 3, 4).unwrap().pidfd, 0);
    assert_eq!(
        sys_clone((CLONE_PIDFD | CLONE_PARENT_SETTID) as u32, 0, 2, 0, 0),
        Err(AxError::InvalidInput)
    );
    assert_eq!(CloneFlags::from_bits_truncate(u64::MAX).bits, 0x1_817d_df00);
}

#[test]
fn all_operations_are_performed_in_order() {
    let ops = args(0, 17).do_clone().unwrap();
    let mut run = CloneRun::new(ops.clone());
    assert_eq!(run.current(), ops[0]);
    for op in &ops[1..] {
        assert_eq!(run.next(Ok(())), CloneStep::Perform(*op));
        assert_eq!(run.current(), *op);
    }
    assert_eq!(run.next(Ok(())), CloneStep::Return(Ok(())));
}

#[test]
fn the_first_failure_ends_a_clone() {
    let mut run = CloneRun::new(args(0, 17).do_clone().unwrap());
    run.next(Ok(()));
    run.next(Ok(()));
    assert_eq!(run.current(), CloneOp::CopyAddressSpace);
    assert_eq!(
        run.next(Err(AxError::Code(12))),
        CloneStep::Return(Err(AxError::Code(12)))
    );
}

#[test]
fn a_failure_to_store_the_id_does_not_matter() {
    let mut run = CloneRun::new(args(CLONE_PARENT_SETTID, 17).do_clone().unwrap());
    assert_eq!(run.next(Ok(())), CloneStep::Perform(CloneOp::StoreParentTid(0x3000)));
    assert_eq!(
        run.next(Err(AxError::BadAddress)),
        CloneStep::Perform(CloneOp::ForkProcess { sibling: false })
    );
}

#[test]
fn a_descriptor_that_cannot_be_stored_is_closed() {
    let mut run = CloneRun::new(args(CLONE_PIDFD, 17).do_clone().unwrap());
    while run.current() != CloneOp::StorePidFd(0x5000) {
        run.next(Ok(()));
    }
    assert_eq!(run.next(Err(AxError::BadAddress)), CloneStep::ClosePidFd);
    assert_eq!(run.next(Ok(())), CloneStep::Return(Err(AxError::BadAddress)));
}

#[test]
fn only_some_operations_can_fail() {
    assert!(CloneOp::ForkProcess { sibling: true }.is_fallible());
    assert!(!CloneOp::ForkProcess { sibling: false }.is_fallible());
    assert!(CloneOp::CopyKernelPart.is_fallible());
    assert!(CloneOp::AddPidFd { thread: true }.is_fallible());
    assert!(!CloneOp::Spawn.is_fallible());
}

#[test]
fn a_child_thread_inherits_its_restrictions() {
    let mut parent = Thread::new(5, Arc::new(1000u32), vec![1u8]);
    parent.set_no_new_privs();
    parent.set_exit_request();
    parent.set_oom_score_adj(7);
    let child = child_thread(&parent, 6, Some(0x4000));
    assert_eq!((child.tid(), *child.cred(), child.clear_child_tid()), (6, 1000, 0x4000));
    assert!(child.no_new_privs() && !child.has_exit_request());
    assert_eq!((child.seccomp_state(), child.oom_score_adj()), (vec![1], 200));
    assert_eq!(child_thread(&parent, 7, None).clear_child_tid(), 0);
}

#[test]
fn a_child_begins_where_its_parent_is() {
    let caller = ThreadContext { sp: 0x7000, tls: 0x100, retval: 220, blocked: 0x8001 };
    let child = ThreadContext { retval: 0, ..caller };
    assert_eq!(child_context(caller, 0, None), child);
    assert_eq!(
        child_context(caller, 0x9000, Some(0)),
        ThreadContext { sp: 0x9000, tls: 0, ..child }
    );
}
