//! The loop of a user task.
//!
//! A user task runs user code until something needs the kernel, takes care of
//! that, delivers signals and returns to user code. [`UserTask`] decides what
//! is done in between.

use vstd::prelude::*;
use crate::arch::Arch;
use crate::errno::eintr_code;
use crate::signo::{Signo, SIGBUS, SIGILL, SIGSEGV, SIGTRAP};

verus! {

/// A segmentation fault at an address that is not mapped.
pub const SEGV_MAPERR: i32 = 1;

/// A segmentation fault at an address that does not allow the access.
pub const SEGV_ACCERR: i32 = 2;

/// Why user code stopped.
#[derive(Debug, Clone, Copy, PartialEq, Eq, Structural)]
pub enum ReturnReason {
    /// It made a system call.
    Syscall,
    /// It accessed memory at the address that is not present.
    PageFault { addr: usize },
    /// A device interrupted it.
    Interrupt,
    /// An instruction failed.
    Exception(ExceptionKind),
    /// Something else.
    Other,
}

/// Why an instruction failed.
#[derive(Debug, Clone, Copy, PartialEq, Eq, Structural)]
pub enum ExceptionKind {
    /// It is a breakpoint.
    Breakpoint,
    /// It was to be stopped after.
    Debug,
    /// There is no such instruction.
    IllegalInstruction,
    /// It accessed an address that is not aligned.
    Misaligned,
    /// Something else.
    Other,
}

/// A signal that is forced upon the thread.
#[derive(Debug, Clone, Copy, PartialEq, Eq, Structural)]
pub enum Fault {
    /// A segmentation fault, with its code and its address.
    Segment { code: i32, addr: usize },
    /// The signal, without more.
    Plain(Signo),
}

/// The system call that may be made again after a signal.
#[derive(Debug, Clone, Copy, PartialEq, Eq, Structural)]
pub struct SyscallRestartInfo {
    /// Its first argument, before it was replaced by the result.
    pub saved_a0: usize,
    /// Its number.
    pub saved_sysno: usize,
}

/// The code of a segmentation fault. `None` if the kernel made the memory
/// present; else it tells whether there is a mapping that refused the access.
pub fn fault_code(handled: bool, mapped: bool) -> (r: Option<i32>)
    ensures
        r == (if handled {
            None
        } else if mapped {
            Some(SEGV_ACCERR)
        } else {
            Some(SEGV_MAPERR)
        }),
{
    if handled {
        None
    } else if mapped {
        Some(SEGV_ACCERR)
    } else {
        Some(SEGV_MAPERR)
    }
}

/// Probes are asked to take care of such a failure: they are planted at
/// breakpoints, and on `X86_64` the instruction that one stands for is stopped
/// after.
pub open spec fn probe_applies(arch: Arch, kind: ExceptionKind) -> bool {
    match kind {
        ExceptionKind::Breakpoint => true,
        ExceptionKind::Debug => arch == Arch::X86_64,
        _ => false,
    }
}

/// The kernel tries to carry out such an instruction itself: on `Loongarch64`
/// one that accessed an address that is not aligned, and on `Aarch64` one that
/// reads the features of the processor.
pub open spec fn emulation_applies(arch: Arch, kind: ExceptionKind) -> bool {
    match kind {
        ExceptionKind::Misaligned => arch == Arch::Loongarch64,
        ExceptionKind::IllegalInstruction => arch == Arch::Aarch64,
        _ => false,
    }
}

/// Whether probes are asked to take care of a failed instruction.
pub fn asks_probes(arch: Arch, kind: ExceptionKind) -> (r: bool)
    ensures
        r == probe_applies(arch, kind),
{
    match kind {
        ExceptionKind::Breakpoint => true,
        ExceptionKind::Debug => arch == Arch::X86_64,
        _ => false,
    }
}

/// Whether the kernel tries to carry out a failed instruction itself, once no
/// probe took care of it.
pub fn tries_emulation(arch: Arch, kind: ExceptionKind) -> (r: bool)
    ensures
        r == emulation_applies(arch, kind),
{
    match kind {
        ExceptionKind::Misaligned => arch == Arch::Loongarch64,
        ExceptionKind::IllegalInstruction => arch == Arch::Aarch64,
        _ => false,
    }
}

/// The signal that a failed instruction raises. `None` if a probe took care of
/// it, or if the kernel carried the instruction out itself, where that applies.
pub open spec fn exception_signo(
    arch: Arch,
    kind: ExceptionKind,
    probed: bool,
    emulated: bool,
) -> Option<u8> {
    if (probe_applies(arch, kind) && probed) || (emulation_applies(arch, kind) && emulated) {
        None
    } else {
        match kind {
            ExceptionKind::IllegalInstruction => Some(SIGILL),
            ExceptionKind::Misaligned => Some(SIGBUS),
            ExceptionKind::Breakpoint | ExceptionKind::Debug | ExceptionKind::Other => Some(
                SIGTRAP,
            ),
        }
    }
}

/// The signal that a failed instruction raises.
pub fn exception_signal(arch: Arch, kind: ExceptionKind, probed: bool, emulated: bool) -> (r:
    Option<Signo>)
    ensures
        r == (match exception_signo(arch, kind, probed, emulated) {
            Some(number) => Some(Signo { number }),
            None => None,
        }),
        r matches Some(signo) ==> signo.wf(),
{
    if asks_probes(arch, kind) && probed {
        return None;
    }
    match kind {
        ExceptionKind::Misaligned => {
            if tries_emulation(arch, kind) && emulated {
                return None;
            }
            Some(Signo { number: SIGBUS })
        },
        ExceptionKind::IllegalInstruction => {
            if tries_emulation(arch, kind) && emulated {
                return None;
            }
            Some(Signo { number: SIGILL })
        },
        ExceptionKind::Breakpoint | ExceptionKind::Debug | ExceptionKind::Other => Some(
            Signo { number: SIGTRAP },
        ),
    }
}

/// What the kernel has found out about why user code stopped.
#[derive(Debug, Clone, Copy, PartialEq, Eq, Structural)]
pub struct Diagnosis {
    /// The missing memory was made present.
    pub handled: bool,
    /// There is a mapping at the address.
    pub mapped: bool,
    /// A probe took care of the failure.
    pub probed: bool,
    /// The instruction was carried out by the kernel.
    pub emulated: bool,
}

/// The signal that is forced upon the thread.
pub open spec fn fault_for(arch: Arch, reason: ReturnReason, d: Diagnosis) -> Option<Fault> {
    match reason {
        ReturnReason::Syscall => None,
        ReturnReason::Interrupt => None,
        ReturnReason::PageFault { addr } => if d.handled {
            None
        } else if d.mapped {
            Some(Fault::Segment { code: SEGV_ACCERR, addr })
        } else {
            Some(Fault::Segment { code: SEGV_MAPERR, addr })
        },
        ReturnReason::Exception(kind) => match exception_signo(
            arch,
            kind,
            d.probed,
            d.emulated,
        ) {
            Some(number) => Some(Fault::Plain(Signo { number })),
            None => None,
        },
        ReturnReason::Other => Some(Fault::Plain(Signo { number: SIGSEGV })),
    }
}

/// The signal that is forced upon the thread because user code stopped for
/// `reason`, of which the kernel has found out `d`.
pub fn fault_of(arch: Arch, reason: ReturnReason, d: Diagnosis) -> (r: Option<Fault>)
    ensures
        r == fault_for(arch, reason, d),
{
    match reason {
        ReturnReason::Syscall | ReturnReason::Interrupt => None,
        ReturnReason::PageFault { addr } => match fault_code(d.handled, d.mapped) {
            Some(code) => Some(Fault::Segment { code, addr }),
            None => None,
        },
        ReturnReason::Exception(kind) => match exception_signal(
            arch,
            kind,
            d.probed,
            d.emulated,
        ) {
            Some(signo) => Some(Fault::Plain(signo)),
            None => None,
        },
        ReturnReason::Other => Some(Fault::Plain(Signo { number: SIGSEGV })),
    }
}

/// The system call that a signal may have made again: one that was interrupted
/// and may be repeated.
pub fn restart_info(
    is_syscall: bool,
    retval: isize,
    restartable: bool,
    saved_a0: usize,
    saved_sysno: usize,
) -> (r: Option<SyscallRestartInfo>)
    ensures
        r == (if is_syscall && retval == -4 && restartable {
            Some(SyscallRestartInfo { saved_a0, saved_sysno })
        } else {
            None
        }),
{
    let interrupted: isize = -(eintr_code() as isize);
    if is_syscall && retval == interrupted && restartable {
        Some(SyscallRestartInfo { saved_a0, saved_sysno })
    } else {
        None
    }
}

/// What a user task is waiting for.
#[derive(Debug, Clone, Copy, PartialEq, Eq, Structural)]
pub enum UserState {
    /// That its id is stored.
    Starting,
    /// That user code stops.
    Running,
    /// That the reason is taken care of.
    Handling,
    /// That the signals to be delivered are up to date.
    PollingTimers,
    /// That a signal is delivered.
    Delivering,
    /// That the kernel is ready to be left.
    Leaving,
    /// Nothing: the task has ended.
    Ended,
}

/// What has come of it.
#[derive(Debug, Clone, Copy, PartialEq, Eq, Structural)]
pub enum UserEvent {
    /// It is done, or there was nothing to store. `exiting` tells whether the
    /// thread is to exit.
    Stored { exiting: bool },
    /// User code stopped for the reason; in a system call, with these
    /// registers.
    Stopped { reason: ReturnReason, saved_a0: usize, saved_sysno: usize },
    /// The reason was taken care of. `skip_signals` tells whether the thread
    /// is to skip one check for signals.
    Handled { retval: isize, restartable: bool, skip_signals: bool },
    /// It is done.
    Polled,
    /// Whether there was a signal.
    Delivered { delivered: bool },
    /// It is done. `exiting` tells whether the thread is to exit.
    Left { exiting: bool },
}

/// What to do next.
#[derive(Debug, Clone, Copy, PartialEq, Eq, Structural)]
pub enum UserAction {
    /// Store the id of the thread at the address. It does not matter whether
    /// that succeeds.
    StoreTid(usize),
    /// Run user code.
    Run,
    /// Count the time as time of the kernel and take care of the reason: make
    /// the system call, or find out what there is to find out and force the
    /// signal of [`fault_of`] upon the thread.
    Handle(ReturnReason),
    /// Look for timers that have expired.
    PollTimers,
    /// Deliver a signal, if there is one. If it asks for it, make the system
    /// call again.
    CheckSignals(Option<SyscallRestartInfo>),
    /// Count the time as time of user code, and forget interruptions.
    LeaveKernel,
    /// End the task.
    Exit,
}

/// A user task.
#[derive(Debug)]
pub struct UserTask {
    /// What is waited for.
    pub state: UserState,
    /// Where the id of the thread is stored.
    pub set_child_tid: usize,
    /// The reason user code stopped last.
    pub reason: ReturnReason,
    /// Its first argument register at that time.
    pub saved_a0: usize,
    /// Its system-call number at that time.
    pub saved_sysno: usize,
    /// The call that the next signal may have made again.
    pub restart: Option<SyscallRestartInfo>,
}

/// The event is of the kind that the state waits for.
pub open spec fn user_fits(state: UserState, event: UserEvent) -> bool {
    match state {
        UserState::Starting => event is Stored,
        UserState::Running => event is Stopped,
        UserState::Handling => event is Handled,
        UserState::PollingTimers => event is Polled,
        UserState::Delivering => event is Delivered,
        UserState::Leaving => event is Left,
        UserState::Ended => false,
    }
}

/// A task that stores its id at `set_child_tid`, unless that is null, and then
/// runs user code.
pub fn new_user_task(set_child_tid: usize) -> (r: UserTask)
    ensures
        r.state == UserState::Starting,
        r.set_child_tid == set_child_tid,
        r.restart is None,
{
    UserTask {
        state: UserState::Starting,
        set_child_tid,
        reason: ReturnReason::Interrupt,
        saved_a0: 0,
        saved_sysno: 0,
        restart: None,
    }
}

impl UserTask {
    /// What a new task does first, if anything.
    pub fn first(&self) -> (r: Option<UserAction>)
        ensures
            r == (if self.set_child_tid == 0 {
                None
            } else {
                Some(UserAction::StoreTid(self.set_child_tid))
            }),
    {
        if self.set_child_tid == 0 {
            None
        } else {
            Some(UserAction::StoreTid(self.set_child_tid))
        }
    }

    /// The task after `event`.
    pub open spec fn after(self, event: UserEvent) -> UserTask {
        match event {
            UserEvent::Stored { exiting } => self.resumed(exiting),
            UserEvent::Stopped { reason, saved_a0, saved_sysno } => UserTask {
                state: UserState::Handling,
                reason,
                saved_a0,
                saved_sysno,
                ..self
            },
            UserEvent::Handled { retval, restartable, skip_signals } => if skip_signals {
                UserTask { state: UserState::Leaving, restart: None, ..self }
            } else {
                UserTask {
                    state: UserState::PollingTimers,
                    restart: if self.reason is Syscall && retval == -4 && restartable {
                        Some(
                            SyscallRestartInfo {
                                saved_a0: self.saved_a0,
                                saved_sysno: self.saved_sysno,
                            },
                        )
                    } else {
                        None
                    },
                    ..self
                }
            },
            UserEvent::Polled => UserTask { state: UserState::Delivering, ..self },
            UserEvent::Delivered { delivered } => UserTask {
                state: if delivered {
                    UserState::Delivering
                } else {
                    UserState::Leaving
                },
                restart: None,
                ..self
            },
            UserEvent::Left { exiting } => self.resumed(exiting),
        }
    }

    /// The task about to run user code, unless the thread is to exit.
    pub open spec fn resumed(self, exiting: bool) -> UserTask {
        UserTask {
            state: if exiting {
                UserState::Ended
            } else {
                UserState::Running
            },
            restart: None,
            ..self
        }
    }

    /// What a task in this state does.
    pub open spec fn action(self) -> UserAction {
        match self.state {
            UserState::Starting => UserAction::StoreTid(self.set_child_tid),
            UserState::Running => UserAction::Run,
            UserState::Handling => UserAction::Handle(self.reason),
            UserState::PollingTimers => UserAction::PollTimers,
            UserState::Delivering => UserAction::CheckSignals(self.restart),
            UserState::Leaving => UserAction::LeaveKernel,
            UserState::Ended => UserAction::Exit,
        }
    }

    /// Makes the task run user code, unless the thread is to exit.
    fn resume(&mut self, exiting: bool)
        ensures
            *final(self) == old(self).resumed(exiting),
    {
        self.restart = None;
        if exiting {
            self.state = UserState::Ended;
        } else {
            self.state = UserState::Running;
        }
    }

    /// Goes on after `event`.
    pub fn next(&mut self, event: UserEvent) -> (action: UserAction)
        requires
            user_fits(old(self).state, event),
        ensures
            *final(self) == old(self).after(event),
            action == final(self).action(),
    {
        match event {
            UserEvent::Stored { exiting } => {
                self.resume(exiting);
            },
            UserEvent::Stopped { reason, saved_a0, saved_sysno } => {
                self.state = UserState::Handling;
                self.reason = reason;
                self.saved_a0 = saved_a0;
                self.saved_sysno = saved_sysno;
            },
            UserEvent::Handled { retval, restartable, skip_signals } => {
                if skip_signals {
                    self.restart = None;
                    self.state = UserState::Leaving;
                } else {
                    let is_syscall = matches!(self.reason, ReturnReason::Syscall);
                    self.restart = restart_info(
                        is_syscall,
                        retval,
                        restartable,
                        self.saved_a0,
                        self.saved_sysno,
                    );
                    self.state = UserState::PollingTimers;
                }
            },
            UserEvent::Polled => {
                self.state = UserState::Delivering;
            },
            UserEvent::Delivered { delivered } => {
                self.restart = None;
                if !delivered {
                    self.state = UserState::Leaving;
                }
            },
            UserEvent::Left { exiting } => {
                self.resume(exiting);
            },
        }
        match self.state {
            UserState::Starting => UserAction::StoreTid(self.set_child_tid),
            UserState::Running => UserAction::Run,
            UserState::Handling => UserAction::Handle(self.reason),
            UserState::PollingTimers => UserAction::PollTimers,
            UserState::Delivering => UserAction::CheckSignals(self.restart),
            UserState::Leaving => UserAction::LeaveKernel,
            UserState::Ended => UserAction::Exit,
        }
    }
}

/// Only the first signal that is delivered on the way back to user code can
/// have a system call made again; and only one that was interrupted.
pub proof fn law_restart_is_decided_once(task: UserTask, event: UserEvent)
    requires
        user_fits(task.state, event),
    ensures
        (event matches UserEvent::Delivered { .. }) ==> task.after(event).restart is None,
        task.state is Delivering && (event matches UserEvent::Delivered { delivered: true })
            ==> task.after(event).action() == UserAction::CheckSignals(None),
        task.state is Handling && task.after(event).restart is Some ==> task.reason is Syscall && (
        event matches UserEvent::Handled { retval: -4, restartable: true, .. }),
{
}

/// A thread that is to exit does not run user code again, and one that is not
/// does not end.
pub proof fn law_exit_is_honoured(task: UserTask, event: UserEvent)
    requires
        user_fits(task.state, event),
    ensures
        task.after(event).state is Running ==> (event matches UserEvent::Stored { exiting: false })
            || (event matches UserEvent::Left { exiting: false }),
        task.after(event).state is Ended ==> (event matches UserEvent::Stored { exiting: true })
            || (event matches UserEvent::Left { exiting: true }),
{
}

/// A signal check that is to be skipped is skipped: neither timers nor signals
/// are looked at on that way back to user code.
pub proof fn law_skipped_check_delivers_nothing(task: UserTask, retval: isize, restartable: bool)
    requires
        task.state is Handling,
    ensures
        task.after(UserEvent::Handled { retval, restartable, skip_signals: true }).action()
            == UserAction::LeaveKernel,
{
}

/// A fault that the kernel took care of raises no signal, an access that a
/// mapping refuses is told from one where there is none, and the address of
/// the fault goes with it.
pub proof fn law_segmentation_faults_are_classified(arch: Arch, addr: usize, d: Diagnosis)
    ensures
        ({
            let fault = fault_for(arch, ReturnReason::PageFault { addr }, d);
            &&& d.handled ==> fault is None
            &&& !d.handled && d.mapped ==> fault == Some(
                Fault::Segment { code: SEGV_ACCERR, addr },
            )
            &&& !d.handled && !d.mapped ==> fault == Some(
                Fault::Segment { code: SEGV_MAPERR, addr },
            )
        }),
{
}

/// Whether the kernel takes care of a breakpoint in its own code: it does not.
pub fn default_breakpoint_handler() -> (r: bool)
    ensures
        !r,
{
    false
}

/// User code that stopped is sent a signal unless the kernel could take care of
/// the reason: missing memory that was made present, a breakpoint that a probe
/// was planted at, an instruction that was carried out. The number of the
/// signal, and the code and the address of a segmentation fault, tell the
/// reason.
pub proof fn law_signal_tells_the_reason(
    arch: Arch,
    reason: ReturnReason,
    d: Diagnosis,
    r: Option<Fault>,
)
    requires
        call_ensures(fault_of, (arch, reason, d), r),
    ensures
        r is None <==> match reason {
            ReturnReason::Syscall => true,
            ReturnReason::Interrupt => true,
            ReturnReason::PageFault { .. } => d.handled,
            ReturnReason::Exception(ExceptionKind::Breakpoint) => d.probed,
            ReturnReason::Exception(ExceptionKind::Debug) => d.probed && arch is X86_64,
            ReturnReason::Exception(ExceptionKind::Misaligned) => d.emulated && arch is Loongarch64,
            ReturnReason::Exception(ExceptionKind::IllegalInstruction) => d.emulated
                && arch is Aarch64,
            ReturnReason::Exception(ExceptionKind::Other) => false,
            ReturnReason::Other => false,
        },
        r matches Some(Fault::Segment { code, addr }) ==> reason == (ReturnReason::PageFault {
            addr,
        }) && !d.handled && (code == 1 || code == 2) && (code == 2 <==> d.mapped),
        r matches Some(Fault::Plain(signo)) ==> {
            &&& signo.number == 4 || signo.number == 5 || signo.number == 7 || signo.number == 11
            &&& signo.number == 4 <==> reason == ReturnReason::Exception(
                ExceptionKind::IllegalInstruction,
            )
            &&& signo.number == 7 <==> reason == ReturnReason::Exception(ExceptionKind::Misaligned)
            &&& signo.number == 11 <==> reason is Other
        },
{
}

/// The code of a segmentation fault says whether there is a mapping.
pub proof fn law_fault_code_tells_whether_there_is_a_mapping(
    handled: bool,
    mapped: bool,
    r: Option<i32>,
)
    requires
        call_ensures(fault_code, (handled, mapped), r),
    ensures
        r is Some <==> !handled,
        r == Some(1i32) <==> !handled && !mapped,
        r == Some(2i32) <==> !handled && mapped,
{
}

/// What the kernel does for a failed instruction, it does only where it applies:
/// what it does not do cannot spare the thread the signal.
pub proof fn law_only_what_applies_spares_the_signal(
    arch: Arch,
    kind: ExceptionKind,
    probed: bool,
    emulated: bool,
    probes: bool,
    emulates: bool,
    r: Option<Signo>,
)
    requires
        call_ensures(asks_probes, (arch, kind), probes),
        call_ensures(tries_emulation, (arch, kind), emulates),
        call_ensures(exception_signal, (arch, kind, probed, emulated), r),
    ensures
        probes <==> kind is Breakpoint || (kind is Debug && arch is X86_64),
        emulates <==> (kind is Misaligned && arch is Loongarch64) || (kind is IllegalInstruction
            && arch is Aarch64),
        r is None <==> (probes && probed) || (emulates && emulated),
        r matches Some(signo) ==> signo.number == match kind {
            ExceptionKind::IllegalInstruction => 4u8,
            ExceptionKind::Misaligned => 7u8,
            _ => 5u8,
        },
{
}

/// A call is offered to be made again, as it was, exactly if it was interrupted
/// and may be repeated.
pub proof fn law_interrupted_call_can_be_made_again(
    is_syscall: bool,
    retval: isize,
    restartable: bool,
    saved_a0: usize,
    saved_sysno: usize,
    r: Option<SyscallRestartInfo>,
)
    requires
        call_ensures(restart_info, (is_syscall, retval, restartable, saved_a0, saved_sysno), r),
    ensures
        r is Some <==> is_syscall && retval + 4 == 0 && restartable,
        r matches Some(info) ==> info.saved_a0 == saved_a0 && info.saved_sysno == saved_sysno,
{
}

/// A new task stores its id where it was told to, and runs; one that was told
/// nowhere runs at once.
pub proof fn law_new_task_stores_its_id(
    set_child_tid: usize,
    task: UserTask,
    first: Option<UserAction>,
)
    requires
        call_ensures(new_user_task, (set_child_tid,), task),
        call_ensures(UserTask::first, (&task,), first),
    ensures
        first is Some <==> set_child_tid != 0,
        first matches Some(action) ==> action == UserAction::StoreTid(set_child_tid),
        task.state is Starting,
{
}

/// What is done next follows from what happened, and the task is told of it in
/// the order: run, take care, look for timers, deliver signals until there is
/// none, leave, run again. A skipped check leaves at once, and a thread that is
/// to exit ends.
pub proof fn law_user_task_goes_round(task: &mut UserTask, event: UserEvent, action: UserAction)
    requires
        user_fits(old(task).state, event),
        call_ensures(UserTask::next, (task, event), action),
    ensures
        match event {
            UserEvent::Stored { exiting } => action == if exiting {
                UserAction::Exit
            } else {
                UserAction::Run
            },
            UserEvent::Stopped { reason, .. } => action == UserAction::Handle(reason),
            UserEvent::Handled { skip_signals, .. } => action == if skip_signals {
                UserAction::LeaveKernel
            } else {
                UserAction::PollTimers
            },
            UserEvent::Polled => action == UserAction::CheckSignals(old(task).restart),
            UserEvent::Delivered { delivered } => action == if delivered {
                UserAction::CheckSignals(None)
            } else {
                UserAction::LeaveKernel
            },
            UserEvent::Left { exiting } => action == if exiting {
                UserAction::Exit
            } else {
                UserAction::Run
            },
        },
        final(task).state is Running <==> action is Run,
        final(task).state is Handling <==> action is Handle,
        final(task).state is PollingTimers <==> action is PollTimers,
        final(task).state is Delivering <==> action is CheckSignals,
        final(task).state is Leaving <==> action is LeaveKernel,
        final(task).state is Ended <==> action is Exit,
        final(task).set_child_tid == old(task).set_child_tid,
{
}

/// The first signal after a stop is offered the call that user code made, with
/// the registers it had when it stopped, exactly if the call was interrupted and
/// may be repeated.
pub proof fn law_first_signal_is_offered_the_call(
    stopping: &mut UserTask,
    reason: ReturnReason,
    saved_a0: usize,
    saved_sysno: usize,
    handling: &mut UserTask,
    retval: isize,
    restartable: bool,
    polling: &mut UserTask,
    a1: UserAction,
    a2: UserAction,
    a3: UserAction,
)
    requires
        old(stopping).state is Running,
        call_ensures(
            UserTask::next,
            (stopping, UserEvent::Stopped { reason, saved_a0, saved_sysno }),
            a1,
        ),
        *old(handling) == *final(stopping),
        call_ensures(
            UserTask::next,
            (handling, UserEvent::Handled { retval, restartable, skip_signals: false }),
            a2,
        ),
        *old(polling) == *final(handling),
        call_ensures(UserTask::next, (polling, UserEvent::Polled), a3),
    ensures
        a3 == UserAction::CheckSignals(
            if reason is Syscall && retval + 4 == 0 && restartable {
                Some(SyscallRestartInfo { saved_a0, saved_sysno })
            } else {
                None
            },
        ),
{
}

} // verus!
