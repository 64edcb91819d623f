use starry_task::arch::Arch;
use starry_task::signo::Signo;
use starry_task::user::{
    asks_probes, default_breakpoint_handler, exception_signal, fault_code, fault_of, new_user_task,
    restart_info, tries_emulation, Diagnosis, ExceptionKind, Fault, ReturnReason, SyscallRestartInfo, UserAction,
    UserEvent, UserState,
};

const NOTHING: Diagnosis = Diagnosis {
    handled: false,
    mapped: false,
    probed: false,
    emulated: false,
};

fn plain(number: u8) -> Option<Fault> {
    Some(Fault::Plain(Signo { number }))
}

#[test]
fn segmentation_faults_are_classified() {
    let reason = ReturnReason::PageFault { addr: 0xdead };
    assert_eq!(
        fault_of(Arch::Aarch64, reason, NOTHING),
        Some(Fault::Segment { code: 1, addr: 0xdead })
    );
    assert_eq!(
        fault_of(Arch::Aarch64, reason, Diagnosis { mapped: true, ..NOTHING }),
        Some(Fault::Segment { code: 2, addr: 0xdead })
    );
    assert_eq!(
        fault_of(Arch::Aarch64, reason, Diagnosis { handled: true, mapped: true, ..NOTHING }),
        None
    );
    assert_eq!(fault_code(false, true), Some(2));
}

const ALL: [Arch; 4] = [Arch::X86_64, Arch::Aarch64, Arch::Riscv64, Arch::Loongarch64];

#[test]
fn exceptions_raise_signals() {
    for arch in ALL {
        let fault = |kind, d| fault_of(arch, ReturnReason::Exception(kind), d);
        assert_eq!(fault(ExceptionKind::Breakpoint, NOTHING), plain(5));
        assert_eq!(fault(ExceptionKind::Debug, NOTHING), plain(5));
        assert_eq!(fault(ExceptionKind::IllegalInstruction, NOTHING), plain(4));
        assert_eq!(fault(ExceptionKind::Misaligned, NOTHING), plain(7));
        assert_eq!(fault(ExceptionKind::Other, NOTHING), plain(5));
        assert_eq!(fault_of(arch, ReturnReason::Other, NOTHING), plain(11));
        assert_eq!(fault_of(arch, ReturnReason::Interrupt, NOTHING), None);
        assert_eq!(fault_of(arch, ReturnReason::Syscall, NOTHING), None);
        assert_eq!(
            exception_signal(arch, ExceptionKind::Other, true, true),
            Some(Signo { number: 5 })
        );
    }
    assert!(!default_breakpoint_handler());
}

#[test]
fn what_is_taken_care_of_depends_on_the_architecture() {
    let helped = Diagnosis { probed: true, emulated: true, ..NOTHING };
    for arch in ALL {
        let fault = |kind| fault_of(arch, ReturnReason::Exception(kind), helped);
        let unless = |helps: bool, number| if helps { None } else { plain(number) };
        assert_eq!(fault(ExceptionKind::Breakpoint), None);
        assert_eq!(fault(ExceptionKind::Debug), unless(arch == Arch::X86_64, 5));
        assert_eq!(fault(ExceptionKind::IllegalInstruction), unless(arch == Arch::Aarch64, 4));
        assert_eq!(fault(ExceptionKind::Misaligned), unless(arch == Arch::Loongarch64, 7));
        assert!(asks_probes(arch, ExceptionKind::Breakpoint));
        assert!(!asks_probes(arch, ExceptionKind::Misaligned));
        assert!(!tries_emulation(arch, ExceptionKind::Debug));
    }
    assert!(asks_probes(Arch::X86_64, ExceptionKind::Debug));
    assert!(!asks_probes(Arch::Riscv64, ExceptionKind::Debug));
    assert!(tries_emulation(Arch::Loongarch64, ExceptionKind::Misaligned));
    assert!(tries_emulation(Arch::Aarch64, ExceptionKind::IllegalInstruction));
    assert!(!tries_emulation(Arch::Riscv64, ExceptionKind::IllegalInstruction));
}

#[test]
fn interrupted_calls_may_be_made_again() {
    let info = Some(SyscallRestartInfo { saved_a0: 3, saved_sysno: 63 });
    assert_eq!(restart_info(true, -4, true, 3, 63), info);
    assert_eq!(restart_info(true, -4, false, 3, 63), None);
    assert_eq!(restart_info(true, 4, true, 3, 63), None);
    assert_eq!(restart_info(false, -4, true, 3, 63), None);
}

#[test]
fn only_the_first_signal_decides_on_a_restart() {
    let mut task = new_user_task(0x1000);
    assert_eq!(task.first(), Some(UserAction::StoreTid(0x1000)));
    assert_eq!(task.next(UserEvent::Stored { exiting: false }), UserAction::Run);
    let stopped = UserEvent::Stopped {
        reason: ReturnReason::Syscall,
        saved_a0: 3,
        saved_sysno: 63,
    };
    assert_eq!(task.next(stopped), UserAction::Handle(ReturnReason::Syscall));
    let handled = UserEvent::Handled { retval: -4, restartable: true, skip_signals: false };
    assert_eq!(task.next(handled), UserAction::PollTimers);
    let info = SyscallRestartInfo { saved_a0: 3, saved_sysno: 63 };
    assert_eq!(
        task.next(UserEvent::Polled),
        UserAction::CheckSignals(Some(info))
    );
    let delivered = |delivered| UserEvent::Delivered { delivered };
    assert_eq!(task.next(delivered(true)), UserAction::CheckSignals(None));
    assert_eq!(task.next(delivered(true)), UserAction::CheckSignals(None));
    assert_eq!(task.next(delivered(false)), UserAction::LeaveKernel);
    assert_eq!(task.next(UserEvent::Left { exiting: false }), UserAction::Run);
}

#[test]
fn a_skipped_check_leaves_at_once() {
    let mut task = new_user_task(0);
    assert_eq!(task.first(), None);
    task.next(UserEvent::Stored { exiting: false });
    task.next(UserEvent::Stopped {
        reason: ReturnReason::Interrupt,
        saved_a0: 0,
        saved_sysno: 0,
    });
    let handled = UserEvent::Handled { retval: 0, restartable: false, skip_signals: true };
    assert_eq!(task.next(handled), UserAction::LeaveKernel);
    assert_eq!(task.next(UserEvent::Left { exiting: true }), UserAction::Exit);
    assert_eq!(task.state, UserState::Ended);
}

#[test]
fn a_thread_that_is_to_exit_does_not_run() {
    let mut task = new_user_task(0);
    assert_eq!(task.next(UserEvent::Stored { exiting: true }), UserAction::Exit);
}
