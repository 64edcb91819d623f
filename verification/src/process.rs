//! State of a process that its threads share.

use std::sync::Arc;
use starry_process::Process;
use vstd::prelude::*;
use crate::auxv::AuxEntry;
use crate::signo::{Signo, SIGCHLD};

verus! {

/// Nanoseconds in a second.
pub const NANOS_PER_SEC: u32 = 1_000_000_000;

/// A span of time.
#[derive(Debug, Clone, Copy, PartialEq, Eq, Structural)]
pub struct TimeValue {
    /// Whole seconds.
    pub secs: u64,
    /// Nanoseconds beyond these, less than a second.
    pub nanos: u32,
}

impl TimeValue {
    /// The nanoseconds are less than a second.
    pub open spec fn wf(self) -> bool {
        self.nanos < NANOS_PER_SEC
    }

    /// The length of the span in nanoseconds.
    pub open spec fn total_nanos(self) -> int {
        self.secs * NANOS_PER_SEC + self.nanos
    }

    /// No time at all.
    pub fn zero() -> (r: TimeValue)
        ensures
            r == (TimeValue { secs: 0, nanos: 0 }),
            r.wf(),
    {
        TimeValue { secs: 0, nanos: 0 }
    }

    /// The longest span is not shorter than both spans together.
    pub open spec fn addable(self, other: TimeValue) -> bool {
        self.secs + other.secs + (if self.nanos + other.nanos < NANOS_PER_SEC {
            0int
        } else {
            1
        }) <= u64::MAX
    }

    /// Whether the longest span is not shorter than both spans together.
    pub fn is_addable(self, other: TimeValue) -> (r: bool)
        requires
            self.wf(),
            other.wf(),
        ensures
            r == self.addable(other),
    {
        let carry: u64 = if self.nanos + other.nanos < NANOS_PER_SEC {
            0
        } else {
            1
        };
        match self.secs.checked_add(other.secs) {
            Some(secs) => secs.checked_add(carry).is_some(),
            None => false,
        }
    }

    /// The sum of two spans.
    pub fn plus(self, other: TimeValue) -> (r: TimeValue)
        requires
            self.wf(),
            other.wf(),
            self.addable(other),
        ensures
            r.wf(),
            r.total_nanos() == self.total_nanos() + other.total_nanos(),
    {
        let secs: u64 = self.secs + other.secs;
        let nanos: u32 = self.nanos + other.nanos;
        if nanos < NANOS_PER_SEC {
            TimeValue { secs, nanos }
        } else {
            TimeValue { secs: secs + 1, nanos: nanos - NANOS_PER_SEC }
        }
    }
}

/// A one-shot completion for `vfork`.
///
/// `poll` denotes the place where the parent waits. That the child is done is
/// recorded here before the parent is woken, so a parent that comes late does
/// not wait at all.
#[derive(Debug)]
pub struct VforkDone<W> {
    /// Whether the child has executed a new image or exited.
    pub done: bool,
    /// Where the parent waits.
    pub poll: W,
}

impl<W> VforkDone<W> {
    /// A completion that is still outstanding.
    pub fn new(poll: W) -> (r: Self)
        ensures
            r == (VforkDone { done: false, poll }),
    {
        VforkDone { done: false, poll }
    }
}

/// A job-control change that the parent has not been told of yet.
#[derive(Debug, Clone, Copy, PartialEq, Eq, Structural)]
pub enum JobStatus {
    /// The process was stopped by the signal.
    Stopped(Signo),
    /// The process was continued.
    Continued,
}

/// Job-control state of a process.
///
/// `stopped` and `status` are independent: `stopped` is the state of the
/// process, `status` a report that the parent consumes once.
#[derive(Debug, Clone, Copy, PartialEq, Eq)]
pub struct JobControl {
    /// The signal that stopped the process; `None` while it runs.
    pub stopped: Option<Signo>,
    /// The report for the parent. A new one replaces one not yet consumed.
    pub status: Option<JobStatus>,
    /// Goes up with every continuation. A thread about to stop compares it
    /// with the value it saw when it took the stop signal.
    pub continue_generation: u64,
}

/// The report that a wait for the given kinds would be given.
pub open spec fn wanted_status(
    status: Option<JobStatus>,
    want_stopped: bool,
    want_continued: bool,
) -> Option<JobStatus> {
    match status {
        Some(JobStatus::Stopped(_)) if want_stopped => status,
        Some(JobStatus::Continued) if want_continued => status,
        _ => None,
    }
}

impl JobControl {
    /// The state of a new process.
    pub fn new() -> (r: JobControl)
        ensures
            r == (JobControl { stopped: None, status: None, continue_generation: 0 }),
    {
        JobControl { stopped: None, status: None, continue_generation: 0 }
    }

    /// The state after an attempt to stop by `signo`, made by a thread that
    /// saw `snapshot` as the generation: nothing happens when the process was
    /// continued in between.
    pub open spec fn after_stop(self, signo: Signo, snapshot: u64) -> JobControl {
        if self.continue_generation != snapshot {
            self
        } else {
            JobControl {
                stopped: Some(signo),
                status: Some(JobStatus::Stopped(signo)),
                continue_generation: self.continue_generation,
            }
        }
    }

    /// The state after a continuation.
    pub open spec fn after_continue(self) -> JobControl {
        JobControl {
            stopped: None,
            status: if self.stopped is Some {
                Some(JobStatus::Continued)
            } else {
                self.status
            },
            continue_generation: self.continue_generation.wrapping_add(1),
        }
    }

    /// The state after a stop was lifted so that the process can be killed.
    pub open spec fn after_kill(self) -> JobControl {
        JobControl { stopped: None, ..self }
    }

    /// The state after a wait for the given kinds took the report.
    pub open spec fn after_take(self, want_stopped: bool, want_continued: bool) -> JobControl {
        if wanted_status(self.status, want_stopped, want_continued) is Some {
            JobControl { status: None, ..self }
        } else {
            self
        }
    }
}

/// What is known of the image that a process runs.
#[derive(Debug)]
pub struct ProcessImage {
    /// The path of the executable.
    pub exe_path: String,
    /// The command line.
    pub cmdline: Arc<Vec<String>>,
    /// The auxiliary vector.
    pub auxv: Vec<AuxEntry>,
}

impl ProcessImage {
    /// The image with the given parts.
    pub fn new(exe_path: String, cmdline: Arc<Vec<String>>, auxv: Vec<AuxEntry>) -> (r: Self)
        ensures
            r == (ProcessImage { exe_path, cmdline, auxv }),
    {
        ProcessImage { exe_path, cmdline, auxv }
    }
}

/// State that the threads of a process share.
///
/// `A` denotes address spaces, `W` places to wait at.
pub struct ProcessData<A, W> {
    /// The process.
    pub proc: Arc<Process>,
    /// The path of the executable.
    pub exe_path: String,
    /// The command line.
    pub cmdline: Arc<Vec<String>>,
    /// The auxiliary vector.
    pub auxv: Vec<AuxEntry>,
    /// The address space.
    pub aspace: A,
    /// The top of the heap.
    pub heap_top: usize,
    /// The signal that the parent is sent when the process exits.
    pub exit_signal: Option<Signo>,
    /// The thread of the parent that created the process.
    pub wait_parent_tid: u32,
    /// The completion that a `vfork` parent waits for.
    pub vfork_done: Option<VforkDone<W>>,
    /// The file mode creation mask.
    pub umask: u32,
    /// The nice value.
    pub nice: i32,
    /// The registered `membarrier` commands.
    pub membarrier_state: u32,
    /// Whether the process may leave core dumps.
    pub dumpable: i32,
    /// Whether transparent huge pages are disabled.
    pub thp_disable: u32,
    /// The user and the system time of the children waited for.
    pub children_cpu_time: (TimeValue, TimeValue),
    /// The personality.
    pub personality: usize,
    /// Whether the address space is shared with another process.
    pub vm_aspace_shared: bool,
    /// Whether the slot in the address space was given back.
    pub aspace_slot_released: bool,
    /// Job-control state.
    pub job_control: JobControl,
}

/// Whether the parent that waits for `vfork` need not wait any longer.
pub open spec fn vfork_over<W>(vfork: Option<VforkDone<W>>) -> bool {
    match vfork {
        Some(vfork) => vfork.done,
        None => true,
    }
}

/// The completion `vfork` once it is recorded.
pub open spec fn vfork_notified<W>(vfork: Option<VforkDone<W>>) -> Option<VforkDone<W>> {
    match vfork {
        Some(vfork) => Some(VforkDone { done: true, poll: vfork.poll }),
        None => None,
    }
}

impl<A, W> ProcessData<A, W> {
    /// The slot in the address space has not been given back yet.
    pub open spec fn holds_slot(self) -> bool {
        !self.aspace_slot_released
    }

    /// The state once the slot has been given back.
    pub open spec fn without_slot(self) -> Self {
        ProcessData { aspace_slot_released: true, ..self }
    }

    /// The state of a new process that runs `image` in `aspace`, where heaps
    /// begin at `heap_base`. The process occupies a slot of `aspace`, which
    /// the caller has to take.
    pub fn new(
        proc: Arc<Process>,
        image: ProcessImage,
        aspace: A,
        heap_base: usize,
        exit_signal: Option<Signo>,
        wait_parent_tid: u32,
        vm_aspace_shared: bool,
    ) -> (r: Self)
        ensures
            r == (ProcessData {
                proc,
                exe_path: image.exe_path,
                cmdline: image.cmdline,
                auxv: image.auxv,
                aspace,
                heap_top: heap_base,
                exit_signal,
                wait_parent_tid,
                vfork_done: None::<VforkDone<W>>,
                umask: 0o022,
                nice: 0,
                membarrier_state: 0,
                dumpable: 1,
                thp_disable: 0,
                children_cpu_time: (
                    TimeValue { secs: 0, nanos: 0 },
                    TimeValue { secs: 0, nanos: 0 },
                ),
                personality: 0,
                vm_aspace_shared,
                aspace_slot_released: false,
                job_control: JobControl { stopped: None, status: None, continue_generation: 0 },
            }),
    {
        ProcessData {
            proc,
            exe_path: image.exe_path,
            cmdline: image.cmdline,
            auxv: image.auxv,
            aspace,
            heap_top: heap_base,
            exit_signal,
            wait_parent_tid,
            vfork_done: None,
            umask: 0o022,
            nice: 0,
            membarrier_state: 0,
            dumpable: 1,
            thp_disable: 0,
            children_cpu_time: (TimeValue::zero(), TimeValue::zero()),
            personality: 0,
            vm_aspace_shared,
            aspace_slot_released: false,
            job_control: JobControl::new(),
        }
    }

    /// Takes over what a new process has from its parent besides its image
    /// and its address space.
    pub fn inherit_from(&mut self, parent: &Self)
        ensures
            *final(self) == (ProcessData {
                umask: parent.umask,
                nice: parent.nice,
                heap_top: parent.heap_top,
                personality: parent.personality,
                dumpable: parent.dumpable,
                thp_disable: parent.thp_disable,
                ..*old(self)
            }),
    {
        self.set_umask(parent.umask());
        self.set_nice(parent.nice());
        self.set_heap_top(parent.get_heap_top());
        let _ = self.replace_personality(parent.personality());
        self.set_dumpable(parent.dumpable());
        self.set_thp_disable(parent.thp_disable());
    }

    /// Whether the address space is shared with another process.
    pub fn vm_aspace_shared(&self) -> (r: bool)
        ensures
            r == self.vm_aspace_shared,
    {
        self.vm_aspace_shared
    }

    /// Notes that the process has an address space of its own again.
    pub fn mark_vm_aspace_private_after_exec(&mut self)
        ensures
            *final(self) == (ProcessData { vm_aspace_shared: false, ..*old(self) }),
    {
        self.vm_aspace_shared = false;
    }

    /// Whether the slot in the address space is to be given back now: the
    /// first time this is asked, and never again.
    pub fn release_aspace_slot_if_needed(&mut self) -> (r: bool)
        ensures
            r == old(self).holds_slot(),
            *final(self) == old(self).without_slot(),
    {
        let released = self.aspace_slot_released;
        self.aspace_slot_released = true;
        !released
    }

    /// The top of the heap.
    pub fn get_heap_top(&self) -> (r: usize)
        ensures
            r == self.heap_top,
    {
        self.heap_top
    }

    /// Sets the top of the heap.
    pub fn set_heap_top(&mut self, top: usize)
        ensures
            *final(self) == (ProcessData { heap_top: top, ..*old(self) }),
    {
        self.heap_top = top;
    }

    /// Whether the process is a clone child: one that sends its parent no
    /// signal, or one other than `SIGCHLD`, when it exits.
    pub fn is_clone_child(&self) -> (r: bool)
        ensures
            r == (self.exit_signal != Some(Signo { number: SIGCHLD })),
    {
        match self.exit_signal {
            Some(signo) => signo.number != SIGCHLD,
            None => true,
        }
    }

    /// The file mode creation mask.
    pub fn umask(&self) -> (r: u32)
        ensures
            r == self.umask,
    {
        self.umask
    }

    /// Sets the file mode creation mask.
    pub fn set_umask(&mut self, umask: u32)
        ensures
            *final(self) == (ProcessData { umask, ..*old(self) }),
    {
        self.umask = umask;
    }

    /// Sets the file mode creation mask and returns the one before.
    pub fn replace_umask(&mut self, umask: u32) -> (r: u32)
        ensures
            r == old(self).umask,
            *final(self) == (ProcessData { umask, ..*old(self) }),
    {
        let before: u32 = self.umask;
        self.umask = umask;
        before
    }

    /// The nice value.
    pub fn nice(&self) -> (r: i32)
        ensures
            r == self.nice,
    {
        self.nice
    }

    /// Sets the nice value.
    pub fn set_nice(&mut self, nice: i32)
        ensures
            *final(self) == (ProcessData { nice, ..*old(self) }),
    {
        self.nice = nice;
    }

    /// The registered `membarrier` commands.
    pub fn membarrier_state(&self) -> (r: u32)
        ensures
            r == self.membarrier_state,
    {
        self.membarrier_state
    }

    /// Registers further `membarrier` commands.
    pub fn register_membarrier_state(&mut self, state: u32)
        ensures
            *final(self) == (ProcessData {
                membarrier_state: old(self).membarrier_state | state,
                ..*old(self)
            }),
    {
        self.membarrier_state = self.membarrier_state | state;
    }

    /// Whether the process may leave core dumps.
    pub fn dumpable(&self) -> (r: i32)
        ensures
            r == self.dumpable,
    {
        self.dumpable
    }

    /// Sets whether the process may leave core dumps. User space may set 0
    /// and 1; the caller has to reject other values.
    pub fn set_dumpable(&mut self, dumpable: i32)
        ensures
            *final(self) == (ProcessData { dumpable, ..*old(self) }),
    {
        self.dumpable = dumpable;
    }

    /// Whether transparent huge pages are disabled.
    pub fn thp_disable(&self) -> (r: u32)
        ensures
            r == self.thp_disable,
    {
        self.thp_disable
    }

    /// Sets whether transparent huge pages are disabled.
    pub fn set_thp_disable(&mut self, thp_disable: u32)
        ensures
            *final(self) == (ProcessData { thp_disable, ..*old(self) }),
    {
        self.thp_disable = thp_disable;
    }

    /// Whether the process is stopped.
    pub fn is_job_stopped(&self) -> (r: bool)
        ensures
            r == (self.job_control.stopped is Some),
    {
        self.job_control.stopped.is_some()
    }

    /// Stops the process by `signo` and leaves a report for the parent, unless
    /// it was continued since the calling thread saw `continue_gen_snapshot`.
    /// Whether the calling thread should park.
    pub fn set_job_stopped(&mut self, signo: Signo, continue_gen_snapshot: u64) -> (r: bool)
        ensures
            r == (old(self).job_control.continue_generation == continue_gen_snapshot),
            *final(self) == (ProcessData {
                job_control: old(self).job_control.after_stop(signo, continue_gen_snapshot),
                ..*old(self)
            }),
    {
        if self.job_control.continue_generation != continue_gen_snapshot {
            return false;
        }
        self.job_control.stopped = Some(signo);
        self.job_control.status = Some(JobStatus::Stopped(signo));
        true
    }

    /// The continue generation, to be taken right after a stop signal.
    pub fn continue_generation(&self) -> (r: u64)
        ensures
            r == self.job_control.continue_generation,
    {
        self.job_control.continue_generation
    }

    /// Continues the process. If it was stopped, leaves a report for the
    /// parent, and the caller has to wake the parked threads; whether it was.
    pub fn set_job_continued(&mut self) -> (r: bool)
        ensures
            r == (old(self).job_control.stopped is Some),
            *final(self) == (ProcessData {
                job_control: old(self).job_control.after_continue(),
                ..*old(self)
            }),
    {
        self.job_control.continue_generation = self.job_control.continue_generation.wrapping_add(1);
        let was_stopped = self.job_control.stopped.is_some();
        self.job_control.stopped = None;
        if was_stopped {
            self.job_control.status = Some(JobStatus::Continued);
        }
        was_stopped
    }

    /// Lifts a stop so that the process can be killed, without a report.
    /// Whether it was stopped, and the parked threads have to be woken.
    pub fn clear_job_stop_for_kill(&mut self) -> (r: bool)
        ensures
            r == (old(self).job_control.stopped is Some),
            *final(self) == (ProcessData {
                job_control: old(self).job_control.after_kill(),
                ..*old(self)
            }),
    {
        let was_stopped = self.job_control.stopped.is_some();
        self.job_control.stopped = None;
        was_stopped
    }

    /// The report for the parent if it is of a wanted kind; it stays.
    pub fn peek_job_status_if(&self, want_stopped: bool, want_continued: bool) -> (r: Option<
        JobStatus,
    >)
        ensures
            r == wanted_status(self.job_control.status, want_stopped, want_continued),
    {
        match self.job_control.status {
            Some(JobStatus::Stopped(signo)) => if want_stopped {
                Some(JobStatus::Stopped(signo))
            } else {
                None
            },
            Some(JobStatus::Continued) => if want_continued {
                Some(JobStatus::Continued)
            } else {
                None
            },
            None => None,
        }
    }

    /// Takes the report for the parent if it is of a wanted kind. To be called
    /// once the report has reached user memory.
    pub fn take_job_status_if(&mut self, want_stopped: bool, want_continued: bool) -> (r: Option<
        JobStatus,
    >)
        ensures
            r == wanted_status(old(self).job_control.status, want_stopped, want_continued),
            *final(self) == (ProcessData {
                job_control: old(self).job_control.after_take(want_stopped, want_continued),
                ..*old(self)
            }),
    {
        let status = self.peek_job_status_if(want_stopped, want_continued);
        if status.is_some() {
            self.job_control.status = None;
        }
        status
    }

    /// The user and the system time of the children waited for.
    pub fn children_cpu_time(&self) -> (r: (TimeValue, TimeValue))
        ensures
            r == self.children_cpu_time,
    {
        self.children_cpu_time
    }

    /// Adds the times of a child that is reaped.
    pub fn add_child_cpu_time(&mut self, utime: TimeValue, stime: TimeValue)
        requires
            old(self).children_cpu_time.0.wf(),
            old(self).children_cpu_time.1.wf(),
            utime.wf(),
            stime.wf(),
            old(self).children_cpu_time.0.addable(utime),
            old(self).children_cpu_time.1.addable(stime),
        ensures
            final(self).children_cpu_time.0.wf(),
            final(self).children_cpu_time.1.wf(),
            final(self).children_cpu_time.0.total_nanos() == old(
                self,
            ).children_cpu_time.0.total_nanos() + utime.total_nanos(),
            final(self).children_cpu_time.1.total_nanos() == old(
                self,
            ).children_cpu_time.1.total_nanos() + stime.total_nanos(),
            *final(self) == (ProcessData {
                children_cpu_time: final(self).children_cpu_time,
                ..*old(self)
            }),
    {
        let (user, system) = self.children_cpu_time;
        self.children_cpu_time = (user.plus(utime), system.plus(stime));
    }

    /// The personality.
    pub fn personality(&self) -> (r: usize)
        ensures
            r == self.personality,
    {
        self.personality
    }

    /// Sets the personality and returns the one before.
    pub fn replace_personality(&mut self, personality: usize) -> (r: usize)
        ensures
            r == old(self).personality,
            *final(self) == (ProcessData { personality, ..*old(self) }),
    {
        let before: usize = self.personality;
        self.personality = personality;
        before
    }

    /// The address space.
    pub fn aspace(&self) -> (r: &A)
        ensures
            *r == self.aspace,
    {
        &self.aspace
    }

    /// Replaces the address space and returns the one before. The caller has
    /// to give back the slot in that one and then to take one in the new.
    pub fn replace_aspace(&mut self, new_aspace: A) -> (r: A)
        ensures
            r == old(self).aspace,
            *final(self) == (ProcessData { aspace: new_aspace, ..*old(self) }),
    {
        let mut other = new_aspace;
        std::mem::swap(&mut self.aspace, &mut other);
        other
    }

    /// Makes the process the child of a `vfork`, whose parent waits at `poll`.
    pub fn set_vfork_done(&mut self, poll: W)
        ensures
            *final(self) == (ProcessData {
                vfork_done: Some(VforkDone { done: false, poll }),
                ..*old(self)
            }),
    {
        self.vfork_done = Some(VforkDone::new(poll));
    }

    /// Whether a `vfork` parent of this process need not wait any longer.
    pub fn is_vfork_done(&self) -> (r: bool)
        ensures
            r == vfork_over(self.vfork_done),
    {
        match &self.vfork_done {
            Some(vfork) => vfork.done,
            None => true,
        }
    }

    /// Records that the process has executed a new image or exited. Whether
    /// there is a `vfork` parent, which the caller then has to wake.
    pub fn notify_vfork_done(&mut self) -> (r: bool)
        ensures
            r == (old(self).vfork_done is Some),
            *final(self) == (ProcessData {
                vfork_done: vfork_notified(old(self).vfork_done),
                ..*old(self)
            }),
    {
        match self.vfork_done.take() {
            Some(vfork) => {
                self.vfork_done = Some(VforkDone { done: true, poll: vfork.poll });
                true
            },
            None => false,
        }
    }
}

/// How a `vfork` parent goes on.
#[derive(Debug, Clone, Copy, PartialEq, Eq, Structural)]
pub enum VforkWait {
    /// Wait to be woken.
    Sleep,
    /// Stop waiting.
    Return,
}

/// How a `vfork` parent goes on that has just registered to be woken, or has
/// been interrupted while it waited.
///
/// A parent that is to exit gives up when it is interrupted. Any other
/// interruption leaves it waiting: the child still runs in its memory.
pub fn wait_vfork_done(is_done: bool, interrupted: bool, exit_requested: bool) -> (r: VforkWait)
    ensures
        r == (if is_done && !interrupted || interrupted && exit_requested {
            VforkWait::Return
        } else {
            VforkWait::Sleep
        }),
{
    if interrupted {
        if exit_requested {
            VforkWait::Return
        } else {
            VforkWait::Sleep
        }
    } else if is_done {
        VforkWait::Return
    } else {
        VforkWait::Sleep
    }
}

/// A process that is continued after a thread has taken a stop signal, and
/// before the thread stops the process, is not stopped.
pub proof fn law_continue_cancels_a_stop_under_way(job: JobControl, signo: Signo)
    ensures
        ({
            let snapshot = job.continue_generation;
            let continued = job.after_continue();
            &&& continued.after_stop(signo, snapshot) == continued
            &&& continued.stopped is None
        }),
{
}

/// A stop and a continuation leave the process running and the parent with
/// one report, that of the continuation; a kill in place of the continuation
/// leaves it with that of the stop.
pub proof fn law_stop_then_resume(job: JobControl, signo: Signo)
    ensures
        ({
            let stopped = job.after_stop(signo, job.continue_generation);
            &&& stopped.stopped == Some(signo)
            &&& stopped.after_continue().stopped is None
            &&& stopped.after_continue().status == Some(JobStatus::Continued)
            &&& stopped.after_kill().stopped is None
            &&& stopped.after_kill().status == Some(JobStatus::Stopped(signo))
        }),
{
}

/// A report is given to one wait only, and taking it does not resume the
/// process.
pub proof fn law_report_is_taken_once(
    job: JobControl,
    want_stopped: bool,
    want_continued: bool,
    again_stopped: bool,
    again_continued: bool,
)
    requires
        wanted_status(job.status, want_stopped, want_continued) is Some,
    ensures
        ({
            let after = job.after_take(want_stopped, want_continued);
            &&& wanted_status(after.status, again_stopped, again_continued) is None
            &&& after.stopped == job.stopped
        }),
{
}

/// The slot in the address space is given back once, however often and from
/// wherever that is asked for.
pub proof fn law_slot_is_released_once<A, W>(data: ProcessData<A, W>)
    ensures
        !data.without_slot().holds_slot(),
        data.without_slot().without_slot() == data.without_slot(),
{
}

/// A `vfork` parent that comes after the child has notified it does not wait.
pub proof fn law_vfork_notification_is_not_lost<W>(vfork: Option<VforkDone<W>>)
    ensures
        vfork_over(vfork_notified(vfork)),
        vfork_notified(vfork_notified(vfork)) == vfork_notified(vfork),
{
}

/// Spans can be added when their sum has less than the nanoseconds of the
/// longest number of seconds and one more; and the sum is as long as both.
pub proof fn law_sum_of_spans(a: TimeValue, b: TimeValue, addable: bool, sum: TimeValue)
    requires
        a.nanos < 1_000_000_000,
        b.nanos < 1_000_000_000,
        call_ensures(TimeValue::is_addable, (a, b), addable),
        call_ensures(TimeValue::plus, (a, b), sum),
    ensures
        addable <==> a.secs * 1_000_000_000 + a.nanos + b.secs * 1_000_000_000 + b.nanos < (
        u64::MAX + 1) * 1_000_000_000,
        sum.secs * 1_000_000_000 + sum.nanos == a.secs * 1_000_000_000 + a.nanos + b.secs
            * 1_000_000_000 + b.nanos,
        sum.nanos < 1_000_000_000,
{
}

/// A process is stopped by the signal and its parent told so, unless it was
/// continued since; then nothing happens. Nothing but job control changes.
pub proof fn law_stop_is_recorded<A, W>(
    data: &mut ProcessData<A, W>,
    signo: Signo,
    snapshot: u64,
    r: bool,
)
    requires
        call_ensures(ProcessData::<A, W>::set_job_stopped, (data, signo, snapshot), r),
    ensures
        r <==> old(data).job_control.continue_generation == snapshot,
        r ==> final(data).job_control.stopped == Some(signo) && final(data).job_control.status
            == Some(JobStatus::Stopped(signo)),
        !r ==> final(data).job_control == old(data).job_control,
        final(data).job_control.continue_generation == old(data).job_control.continue_generation,
        *final(data) == (ProcessData { job_control: final(data).job_control, ..*old(data) }),
{
}

/// A continued process runs. Its parent is told if it was stopped, and only
/// then; and a thread that saw the generation before cannot stop it any more.
pub proof fn law_continuation_is_recorded<A, W>(
    data: &mut ProcessData<A, W>,
    r: bool,
    later: &mut ProcessData<A, W>,
    signo: Signo,
    stopped: bool,
)
    requires
        call_ensures(ProcessData::<A, W>::set_job_continued, (data,), r),
        *old(later) == *final(data),
        call_ensures(
            ProcessData::<A, W>::set_job_stopped,
            (later, signo, old(data).job_control.continue_generation),
            stopped,
        ),
    ensures
        r <==> old(data).job_control.stopped is Some,
        final(data).job_control.stopped is None,
        final(data).job_control.status == if r {
            Some(JobStatus::Continued)
        } else {
            old(data).job_control.status
        },
        final(data).job_control.continue_generation != old(data).job_control.continue_generation,
        old(data).job_control.continue_generation < u64::MAX
            ==> final(data).job_control.continue_generation == old(
            data,
        ).job_control.continue_generation + 1,
        !stopped && final(later).job_control.stopped is None,
        *final(data) == (ProcessData { job_control: final(data).job_control, ..*old(data) }),
{
}

/// A process that is killed is not stopped any more; its parent is not told,
/// and it was not continued.
pub proof fn law_kill_lifts_a_stop<A, W>(data: &mut ProcessData<A, W>, r: bool)
    requires
        call_ensures(ProcessData::<A, W>::clear_job_stop_for_kill, (data,), r),
    ensures
        r <==> old(data).job_control.stopped is Some,
        final(data).job_control.stopped is None,
        final(data).job_control.status == old(data).job_control.status,
        final(data).job_control.continue_generation == old(data).job_control.continue_generation,
        *final(data) == (ProcessData { job_control: final(data).job_control, ..*old(data) }),
{
}

/// A report is handed to a wait for its kind and to no other; looking at it
/// leaves it, taking it removes it, and what is not handed out stays.
pub proof fn law_report_is_for_its_kind<A, W>(
    data: &mut ProcessData<A, W>,
    stopped: bool,
    continued: bool,
    peeked: Option<JobStatus>,
    taken: Option<JobStatus>,
)
    requires
        call_ensures(
            ProcessData::<A, W>::peek_job_status_if,
            (old(data), stopped, continued),
            peeked,
        ),
        call_ensures(
            ProcessData::<A, W>::take_job_status_if,
            (data, stopped, continued),
            taken,
        ),
    ensures
        peeked == taken,
        taken is Some <==> (stopped && old(data).job_control.status is Some && old(
            data,
        ).job_control.status->0 is Stopped) || (continued && old(data).job_control.status == Some(
            JobStatus::Continued,
        )),
        taken is Some ==> taken == old(data).job_control.status,
        final(data).job_control.status == if taken is Some {
            None
        } else {
            old(data).job_control.status
        },
        final(data).job_control.stopped == old(data).job_control.stopped,
        final(data).job_control.continue_generation == old(data).job_control.continue_generation,
        *final(data) == (ProcessData { job_control: final(data).job_control, ..*old(data) }),
{
}

/// Whether a process is stopped, and how often it was continued, is what was
/// recorded.
pub proof fn law_job_state_is_told<A, W>(
    data: &ProcessData<A, W>,
    stopped: bool,
    generation: u64,
)
    requires
        call_ensures(ProcessData::<A, W>::is_job_stopped, (data,), stopped),
        call_ensures(ProcessData::<A, W>::continue_generation, (data,), generation),
    ensures
        stopped <==> data.job_control.stopped is Some,
        generation == data.job_control.continue_generation,
{
}

/// A new process has the image, the address space and the parent that it is
/// given, runs with the usual settings, has neither children nor reports, and
/// has its slot.
pub proof fn law_new_process_has_the_usual_settings<A, W>(
    proc: Arc<Process>,
    image: ProcessImage,
    aspace: A,
    heap_base: usize,
    exit_signal: Option<Signo>,
    wait_parent_tid: u32,
    shared: bool,
    r: ProcessData<A, W>,
)
    requires
        call_ensures(
            ProcessData::<A, W>::new,
            (proc, image, aspace, heap_base, exit_signal, wait_parent_tid, shared),
            r,
        ),
    ensures
        r.proc == proc && r.aspace == aspace && r.vm_aspace_shared == shared,
        r.exe_path == image.exe_path && r.cmdline == image.cmdline && r.auxv == image.auxv,
        r.heap_top == heap_base,
        r.exit_signal == exit_signal && r.wait_parent_tid == wait_parent_tid,
        r.umask == 18 && r.nice == 0 && r.dumpable == 1 && r.thp_disable == 0,
        r.membarrier_state == 0 && r.personality == 0,
        r.children_cpu_time.0.secs == 0 && r.children_cpu_time.0.nanos == 0,
        r.children_cpu_time.1.secs == 0 && r.children_cpu_time.1.nanos == 0,
        r.vfork_done is None && r.job_control.stopped is None && r.job_control.status is None,
        r.job_control.continue_generation == 0,
        !r.aspace_slot_released,
{
}

/// A child has the settings of its parent, each from the one it is named after,
/// and keeps everything else.
pub proof fn law_settings_are_inherited<A, W>(
    data: &mut ProcessData<A, W>,
    parent: &ProcessData<A, W>,
)
    requires
        call_ensures(ProcessData::<A, W>::inherit_from, (data, parent), ()),
    ensures
        final(data).umask == parent.umask,
        final(data).nice == parent.nice,
        final(data).heap_top == parent.heap_top,
        final(data).personality == parent.personality,
        final(data).dumpable == parent.dumpable,
        final(data).thp_disable == parent.thp_disable,
        final(data).membarrier_state == old(data).membarrier_state,
        final(data).children_cpu_time == old(data).children_cpu_time,
        final(data).job_control == old(data).job_control,
        final(data).exit_signal == old(data).exit_signal,
        final(data).wait_parent_tid == old(data).wait_parent_tid,
        final(data).aspace == old(data).aspace && final(data).proc == old(data).proc,
        final(data).vm_aspace_shared == old(data).vm_aspace_shared,
        final(data).aspace_slot_released == old(data).aspace_slot_released,
        final(data).vfork_done == old(data).vfork_done,
        final(data).exe_path == old(data).exe_path && final(data).cmdline == old(data).cmdline
            && final(data).auxv == old(data).auxv,
{
}

/// A mask that was set is what is read and what the next one replaces.
pub proof fn law_umask_is_read_back<A, W>(
    data: &mut ProcessData<A, W>,
    umask: u32,
    later: &mut ProcessData<A, W>,
    next: u32,
    read: u32,
    replaced: u32,
)
    requires
        call_ensures(ProcessData::<A, W>::set_umask, (data, umask), ()),
        *old(later) == *final(data),
        call_ensures(ProcessData::<A, W>::umask, (old(later),), read),
        call_ensures(ProcessData::<A, W>::replace_umask, (later, next), replaced),
    ensures
        read == umask && replaced == umask && final(later).umask == next,
        *final(data) == (ProcessData { umask, ..*old(data) }),
        *final(later) == (ProcessData { umask: next, ..*old(data) }),
{
}

/// A nice value that was set is what is read.
pub proof fn law_nice_is_read_back<A, W>(data: &mut ProcessData<A, W>, nice: i32, read: i32)
    requires
        call_ensures(ProcessData::<A, W>::set_nice, (data, nice), ()),
        call_ensures(ProcessData::<A, W>::nice, (final(data),), read),
    ensures
        read == nice,
        *final(data) == (ProcessData { nice, ..*old(data) }),
{
}

/// Whether core dumps may be left is read as it was set.
pub proof fn law_dumpable_is_read_back<A, W>(
    data: &mut ProcessData<A, W>,
    dumpable: i32,
    read: i32,
)
    requires
        call_ensures(ProcessData::<A, W>::set_dumpable, (data, dumpable), ()),
        call_ensures(ProcessData::<A, W>::dumpable, (final(data),), read),
    ensures
        read == dumpable,
        *final(data) == (ProcessData { dumpable, ..*old(data) }),
{
}

/// Whether huge pages are disabled is read as it was set.
pub proof fn law_thp_disable_is_read_back<A, W>(
    data: &mut ProcessData<A, W>,
    thp_disable: u32,
    read: u32,
)
    requires
        call_ensures(ProcessData::<A, W>::set_thp_disable, (data, thp_disable), ()),
        call_ensures(ProcessData::<A, W>::thp_disable, (final(data),), read),
    ensures
        read == thp_disable,
        *final(data) == (ProcessData { thp_disable, ..*old(data) }),
{
}

/// The top of the heap is read as it was set.
pub proof fn law_heap_top_is_read_back<A, W>(
    data: &mut ProcessData<A, W>,
    top: usize,
    read: usize,
)
    requires
        call_ensures(ProcessData::<A, W>::set_heap_top, (data, top), ()),
        call_ensures(ProcessData::<A, W>::get_heap_top, (final(data),), read),
    ensures
        read == top,
        *final(data) == (ProcessData { heap_top: top, ..*old(data) }),
{
}

/// A personality replaces the one before, and is then what is read.
pub proof fn law_personality_is_read_back<A, W>(
    data: &mut ProcessData<A, W>,
    personality: usize,
    before: usize,
    read: usize,
)
    requires
        call_ensures(ProcessData::<A, W>::replace_personality, (data, personality), before),
        call_ensures(ProcessData::<A, W>::personality, (final(data),), read),
    ensures
        before == old(data).personality && read == personality,
        *final(data) == (ProcessData { personality, ..*old(data) }),
{
}

/// A command is registered if it was before or is now; none is ever lost.
pub proof fn law_registered_commands_add_up<A, W>(
    data: &mut ProcessData<A, W>,
    state: u32,
    read: u32,
    bit: u32,
)
    requires
        call_ensures(ProcessData::<A, W>::register_membarrier_state, (data, state), ()),
        call_ensures(ProcessData::<A, W>::membarrier_state, (final(data),), read),
    ensures
        read & (1u32 << bit) != 0 <==> old(data).membarrier_state & (1u32 << bit) != 0 || state & (
        1u32 << bit) != 0,
        *final(data) == (ProcessData { membarrier_state: read, ..*old(data) }),
{
    let a = old(data).membarrier_state;
    let m = 1u32 << bit;
    assert((a | state) & m != 0 <==> a & m != 0 || state & m != 0) by (bit_vector);
}

/// An address space replaces the one before, and is then the one of the process.
pub proof fn law_address_space_is_replaced<A, W>(
    data: &mut ProcessData<A, W>,
    aspace: A,
    before: A,
    now: &A,
)
    requires
        call_ensures(ProcessData::<A, W>::replace_aspace, (data, aspace), before),
        call_ensures(ProcessData::<A, W>::aspace, (final(data),), now),
    ensures
        before == old(data).aspace && *now == aspace,
        *final(data) == (ProcessData { aspace, ..*old(data) }),
{
}

/// Only a process that sends its parent the usual signal is no clone child.
pub proof fn law_clone_children_send_another_signal<A, W>(data: &ProcessData<A, W>, r: bool)
    requires
        call_ensures(ProcessData::<A, W>::is_clone_child, (data,), r),
    ensures
        !r <==> data.exit_signal is Some && data.exit_signal->0.number == 17,
{
}

/// Once it has a new image, a process does not share its address space.
pub proof fn law_exec_ends_sharing<A, W>(data: &mut ProcessData<A, W>, shared: bool)
    requires
        call_ensures(ProcessData::<A, W>::mark_vm_aspace_private_after_exec, (data,), ()),
        call_ensures(ProcessData::<A, W>::vm_aspace_shared, (final(data),), shared),
    ensures
        !shared,
        *final(data) == (ProcessData { vm_aspace_shared: false, ..*old(data) }),
{
}

/// Of two that ask whether to give the slot back, the second is never told to,
/// and the first is unless somebody was before.
pub proof fn law_slot_is_given_back_once<A, W>(
    data: &mut ProcessData<A, W>,
    later: &mut ProcessData<A, W>,
    first: bool,
    second: bool,
)
    requires
        call_ensures(ProcessData::<A, W>::release_aspace_slot_if_needed, (data,), first),
        *old(later) == *final(data),
        call_ensures(ProcessData::<A, W>::release_aspace_slot_if_needed, (later,), second),
    ensures
        first <==> !old(data).aspace_slot_released,
        !second,
        *final(data) == (ProcessData { aspace_slot_released: true, ..*old(data) }),
{
}

/// A `vfork` child is not done until it says so, and is from then on; and it is
/// told to wake its parent, who waits where it was said to.
pub proof fn law_vfork_child_notifies_its_parent<A, W>(
    data: &mut ProcessData<A, W>,
    poll: W,
    before: bool,
    later: &mut ProcessData<A, W>,
    wakes: bool,
    after: bool,
)
    requires
        call_ensures(ProcessData::<A, W>::set_vfork_done, (data, poll), ()),
        call_ensures(ProcessData::<A, W>::is_vfork_done, (final(data),), before),
        *old(later) == *final(data),
        call_ensures(ProcessData::<A, W>::notify_vfork_done, (later,), wakes),
        call_ensures(ProcessData::<A, W>::is_vfork_done, (final(later),), after),
    ensures
        !before && wakes && after,
        final(later).vfork_done is Some && final(later).vfork_done->0.poll == poll,
        *final(later) == (ProcessData { vfork_done: final(later).vfork_done, ..*old(data) }),
{
}

/// A process that nobody waits for has nobody to wake, and nobody needs to wait.
pub proof fn law_nobody_waits_without_vfork<A, W>(
    data: &mut ProcessData<A, W>,
    done: bool,
    wakes: bool,
)
    requires
        old(data).vfork_done is None,
        call_ensures(ProcessData::<A, W>::is_vfork_done, (old(data),), done),
        call_ensures(ProcessData::<A, W>::notify_vfork_done, (data,), wakes),
    ensures
        done && !wakes && *final(data) == *old(data),
{
}

/// A `vfork` parent waits until the child is done: an interruption lets it go
/// only if it is to exit.
pub proof fn law_vfork_parent_waits_for_its_child(
    is_done: bool,
    interrupted: bool,
    exit_requested: bool,
    r: VforkWait,
)
    requires
        call_ensures(wait_vfork_done, (is_done, interrupted, exit_requested), r),
    ensures
        r is Return ==> is_done || exit_requested,
        !interrupted ==> (r is Return <==> is_done),
        interrupted ==> (r is Return <==> exit_requested),
{
}

/// The times of a child are added to those of its like: user time to user time,
/// and system time to system time.
pub proof fn law_child_times_add_up<A, W>(
    data: &mut ProcessData<A, W>,
    utime: TimeValue,
    stime: TimeValue,
    read: (TimeValue, TimeValue),
)
    requires
        old(data).children_cpu_time.0.wf(),
        old(data).children_cpu_time.1.wf(),
        utime.wf(),
        stime.wf(),
        old(data).children_cpu_time.0.addable(utime),
        old(data).children_cpu_time.1.addable(stime),
        call_ensures(ProcessData::<A, W>::add_child_cpu_time, (data, utime, stime), ()),
        call_ensures(ProcessData::<A, W>::children_cpu_time, (final(data),), read),
    ensures
        read.0.secs * 1_000_000_000 + read.0.nanos == old(data).children_cpu_time.0.secs
            * 1_000_000_000 + old(data).children_cpu_time.0.nanos + utime.secs * 1_000_000_000
            + utime.nanos,
        read.1.secs * 1_000_000_000 + read.1.nanos == old(data).children_cpu_time.1.secs
            * 1_000_000_000 + old(data).children_cpu_time.1.nanos + stime.secs * 1_000_000_000
            + stime.nanos,
        read.0.nanos < 1_000_000_000 && read.1.nanos < 1_000_000_000,
        *final(data) == (ProcessData { children_cpu_time: read, ..*old(data) }),
{
}

/// What is made new is as it is given, and nothing has happened to it: a `vfork`
/// that nobody has completed, job control without a stop or a report, no time.
pub proof fn law_new_state_is_untouched<W>(
    poll: W,
    vfork: VforkDone<W>,
    job: JobControl,
    exe_path: String,
    cmdline: Arc<Vec<String>>,
    auxv: Vec<AuxEntry>,
    image: ProcessImage,
    time: TimeValue,
)
    requires
        call_ensures(VforkDone::<W>::new, (poll,), vfork),
        call_ensures(JobControl::new, (), job),
        call_ensures(ProcessImage::new, (exe_path, cmdline, auxv), image),
        call_ensures(TimeValue::zero, (), time),
    ensures
        !vfork.done && vfork.poll == poll,
        job.stopped is None && job.status is None && job.continue_generation == 0,
        image.exe_path == exe_path && image.cmdline == cmdline && image.auxv == auxv,
        time.secs == 0 && time.nanos == 0,
{
}

} // verus!
