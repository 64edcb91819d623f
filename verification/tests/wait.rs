use std::sync::Arc;

use starry_process::Process;
use starry_task::errno::AxError;
use starry_task::process::{JobControl, JobStatus, ProcessData, ProcessImage, TimeValue};
use starry_task::process_tree::ProcessNode;
use starry_task::signo::Signo;
use starry_task::vm::{VmError, VmResult};
use starry_task::vm_io::{UserMemory, VmIo};
use starry_task::wait::{
    child_uid, encode_job_status, is_addable, sys_waitid, sys_waitpid, wait_poll, waitable_processes,
    waitid_pidfd_target, waitid_target, waitpid_target, waitpid_value, Child, LiveChild,
    PidFdLookup, PollStep, WaitChildFilter, WaitEvent, WaitIdEvent, WaitIdOptions, WaitPidOptions,
    WaitTarget, P_ALL, P_PGID, P_PID, P_PIDFD, SIGINFO_SIZE, WALL, WCLONE, WCONTINUED, WEXITED, WNOHANG,
    WNOTHREAD, WNOWAIT, WUNTRACED,
};

/// Memory in which everything from `limit` on is refused.
struct Memory {
    limit: usize,
    writes: Vec<(usize, Vec<u8>)>,
}

impl VmIo for Memory {
    fn new() -> Self {
        Memory { limit: 0x1_0000, writes: Vec::new() }
    }

    fn read(&mut self, _start: usize, _buf: &mut [u8]) -> VmResult<()> {
        Err(VmError::BadAddress)
    }

    fn write(&mut self, start: usize, buf: &[u8]) -> VmResult<()> {
        if start >= self.limit {
            return Err(VmError::BadAddress);
        }
        self.writes.push((start, buf.to_vec()));
        Ok(())
    }
}

fn memory() -> UserMemory<Memory> {
    UserMemory::new()
}

fn caller() -> ProcessData<(), ()> {
    let image = ProcessImage::new(String::new(), Arc::new(vec![]), vec![]);
    ProcessData::new(Process::new_init(1), image, (), 0, None, 1, false)
}

fn node(pid: u32, pgid: u32) -> ProcessNode {
    ProcessNode { pid, pgid, threads: vec![pid, pid + 100], zombie: false, exit_code: 0 }
}

fn child(pid: u32, pgid: u32) -> Child {
    Child {
        node: node(pid, pgid),
        live: Some(LiveChild {
            wait_parent_tid: 1,
            clone_child: false,
            job_control: JobControl::new(),
        }),
        zombie_wait_parent_tid: None,
        zombie_clone_child: None,
    }
}

fn zombie(pid: u32, exit_code: i32) -> Child {
    let mut c = child(pid, 1);
    c.node.zombie = true;
    c.node.exit_code = exit_code;
    c.live = None;
    c.zombie_wait_parent_tid = Some(1);
    c.zombie_clone_child = Some(false);
    c
}

fn reporting(pid: u32, status: JobStatus) -> Child {
    let mut c = child(pid, 1);
    c.live.as_mut().unwrap().job_control.status = Some(status);
    c
}

fn pids(children: &[Child]) -> Vec<u32> {
    children.iter().map(|c| c.node.pid).collect()
}

const TIMES: [(TimeValue, TimeValue); 2] = [
    (TimeValue { secs: 1, nanos: 600_000_000 }, TimeValue { secs: 0, nanos: 5 }),
    (TimeValue { secs: 0, nanos: 500_000_000 }, TimeValue { secs: 0, nanos: 6 }),
];

#[test]
fn unknown_options_are_rejected() {
    assert!(WaitPidOptions::from_bits(WNOHANG | WALL).unwrap().contains(WALL));
    assert_eq!(WaitPidOptions::from_bits(WEXITED), None);
    assert_eq!(WaitPidOptions::from_bits(WNOWAIT), None);
    assert!(WaitIdOptions::from_bits(WEXITED | WNOWAIT).is_some());
    assert_eq!(WaitIdOptions::from_bits(0x10), None);
}

#[test]
fn targets_select_children() {
    let c = node(10, 3);
    assert!(WaitTarget::Any.matches(&c));
    assert!(WaitTarget::Pid(10).matches(&c));
    assert!(!WaitTarget::Pid(110).matches(&c));
    assert!(WaitTarget::Pid(110).matches_process_or_thread(&c));
    assert!(!WaitTarget::Pid(111).matches_process_or_thread(&c));
    assert!(WaitTarget::Pgid(3).matches(&c));
    assert!(!WaitTarget::Pgid(110).matches_process_or_thread(&c));
    assert_eq!(waitpid_target(-1, 7), WaitTarget::Any);
    assert_eq!(waitpid_target(0, 7), WaitTarget::Pgid(7));
    assert_eq!(waitpid_target(5, 7), WaitTarget::Pid(5));
    assert_eq!(waitpid_target(-5, 7), WaitTarget::Pgid(5));
}

#[test]
fn waitid_targets_are_checked() {
    let bad = Err(AxError::InvalidInput);
    let fd = PidFdLookup::Process(9);
    assert_eq!(waitid_target(P_ALL, -3, 7, fd), Ok(WaitTarget::Any));
    assert_eq!(waitid_target(P_PID, 5, 7, fd), Ok(WaitTarget::Pid(5)));
    assert_eq!(waitid_target(P_PID, 0, 7, fd), bad);
    assert_eq!(waitid_target(P_PGID, 0, 7, fd), Ok(WaitTarget::Pgid(7)));
    assert_eq!(waitid_target(P_PGID, 5, 7, fd), Ok(WaitTarget::Pgid(5)));
    assert_eq!(waitid_target(P_PGID, -1, 7, fd), bad);
    assert_eq!(waitid_target(P_PIDFD, 3, 7, fd), Ok(WaitTarget::Pid(9)));
    assert_eq!(waitid_target(P_PIDFD, -1, 7, fd), bad);
    assert_eq!(waitid_target(4, 1, 7, fd), bad);
    assert_eq!(
        waitid_pidfd_target(3, PidFdLookup::NotAPidFd),
        Err(AxError::BadFileDescriptor)
    );
    assert_eq!(
        waitid_pidfd_target(3, PidFdLookup::Missing(AxError::Code(9))),
        Err(AxError::Code(9))
    );
}

#[test]
fn children_are_reported_with_their_user() {
    assert_eq!(child_uid(Some(5), &vec![Some(6)]), 5);
    assert_eq!(child_uid(None, &vec![None, Some(6), Some(7)]), 6);
    assert_eq!(child_uid(None, &vec![None]), 0);
}

#[test]
fn kinds_of_children_are_filtered() {
    let filter = |bits| {
        WaitChildFilter::from_waitpid_options(&WaitPidOptions::from_bits(bits).unwrap())
    };
    let ordinary = child(2, 1);
    let mut clone = child(3, 1);
    clone.live.as_mut().unwrap().clone_child = true;
    let mut gone = zombie(4, 0);
    gone.zombie_clone_child = Some(true);
    gone.zombie_wait_parent_tid = Some(8);
    assert!(filter(0).matches_process(&ordinary, 99));
    assert!(!filter(0).matches_process(&clone, 99));
    assert!(filter(WCLONE).matches_process(&clone, 99));
    assert!(filter(WCLONE).matches_process(&gone, 99));
    assert!(!filter(WCLONE).matches_process(&ordinary, 99));
    assert!(filter(WALL).matches_process(&ordinary, 99));
    assert!(filter(WALL).matches_process(&clone, 99));
    assert!(filter(WNOTHREAD).matches_process(&ordinary, 1));
    assert!(!filter(WNOTHREAD).matches_process(&ordinary, 2));
    assert!(filter(WALL | WNOTHREAD).matches_process(&gone, 8));
    gone.zombie_wait_parent_tid = None;
    assert!(!filter(WALL | WNOTHREAD).matches_process(&gone, 8));
    let same = WaitChildFilter::from_waitid_options(&WaitIdOptions { bits: WALL });
    assert!(same.wall && !same.clone && !same.no_thread);
    assert!(same.matches_clone_kind(true));
}

#[test]
fn the_order_of_children_is_kept() {
    let children = vec![child(5, 1), child(3, 2), child(9, 1), child(4, 1)];
    let filter = WaitChildFilter { wall: false, clone: false, no_thread: false };
    let kept = waitable_processes(children, WaitTarget::Pgid(1), 1, filter);
    assert_eq!(pids(&kept), vec![5, 9, 4]);
}

#[test]
fn a_wait_without_children_fails() {
    assert_eq!(
        sys_waitpid(7, 0, 1, 1, vec![child(5, 1)]).unwrap_err(),
        AxError::NoChild
    );
    assert_eq!(
        sys_waitpid(-1, WEXITED, 1, 1, vec![child(5, 1)]).unwrap_err(),
        AxError::InvalidInput
    );
    let fd = PidFdLookup::NotAPidFd;
    let waitid = |idtype, id, options| {
        sys_waitid(idtype, id, options, 1, 1, fd, vec![child(5, 1)])
            .map(|w| pids(&w.children))
    };
    assert_eq!(waitid(P_ALL, 0, WEXITED), Ok(vec![5]));
    assert_eq!(waitid(P_PID, 6, WEXITED), Err(AxError::NoChild));
    assert_eq!(waitid(P_PID, 6, WNOHANG), Err(AxError::InvalidInput));
    assert_eq!(waitid(P_PID, 6, WEXITED | 0x10), Err(AxError::InvalidInput));
    assert_eq!(waitid(P_PIDFD, 6, 0), Err(AxError::BadFileDescriptor));
}

#[test]
fn a_terminated_child_is_reaped() {
    let children = vec![child(5, 1), zombie(6, 0x0700), zombie(7, 1)];
    let wait = sys_waitpid(-1, 0, 1, 1, children).unwrap();
    assert_eq!(wait.exited_child(), Some(1));
    let mut vm = memory();
    let mut data = caller();
    let event = wait.check_children(&mut vm, 0x100, &mut data, &TIMES.to_vec());
    assert_eq!(event, Ok(Some(WaitEvent::Reaped { index: 1 })));
    assert_eq!(waitpid_value(&wait, WaitEvent::Reaped { index: 1 }), 6);
    assert_eq!(vm.io().writes, vec![(0x100, vec![0, 7, 0, 0])]);
    assert_eq!(
        data.children_cpu_time(),
        (TimeValue { secs: 2, nanos: 100_000_000 }, TimeValue { secs: 0, nanos: 11 })
    );
}

#[test]
fn a_failed_publication_leaves_the_child() {
    let wait = sys_waitpid(-1, 0, 1, 1, vec![zombie(6, 0)]).unwrap();
    let mut data = caller();
    let times = TIMES.to_vec();
    for _ in 0..2 {
        assert_eq!(
            wait.check_children(&mut memory(), 0x2_0000, &mut data, &times),
            Err(AxError::BadAddress)
        );
        assert_eq!(data.children_cpu_time(), (TimeValue::zero(), TimeValue::zero()));
    }
    // A null address publishes nothing.
    let mut vm = memory();
    assert_eq!(
        wait.check_children(&mut vm, 0, &mut data, &times),
        Ok(Some(WaitEvent::Reaped { index: 0 }))
    );
    assert!(vm.io().writes.is_empty());
    // The times are counted once.
    assert_eq!(
        data.children_cpu_time(),
        (TimeValue { secs: 2, nanos: 100_000_000 }, TimeValue { secs: 0, nanos: 11 })
    );
}

#[test]
fn stops_and_continuations_are_reported_on_request() {
    let stop = JobStatus::Stopped(Signo { number: 19 });
    assert_eq!(encode_job_status(stop), 0x137f);
    assert_eq!(encode_job_status(JobStatus::Continued), 0xffff);
    let children = || vec![reporting(5, JobStatus::Continued), reporting(6, stop)];
    let look = |options| {
        let wait = sys_waitpid(-1, options, 1, 1, children()).unwrap();
        let mut vm = memory();
        let r = wait.check_children(&mut vm, 8, &mut caller(), &vec![]);
        (r, vm.into_inner().writes)
    };
    assert_eq!(
        look(WUNTRACED),
        (Ok(Some(WaitEvent::Reported { index: 1 })), vec![(8, vec![0x7f, 0x13, 0, 0])])
    );
}

#[test]
fn the_first_report_counts() {
    let stop = JobStatus::Stopped(Signo { number: 19 });
    let children = vec![reporting(5, JobStatus::Continued), reporting(6, stop)];
    let wait = sys_waitpid(-1, WUNTRACED | WCONTINUED, 1, 1, children).unwrap();
    let mut vm = memory();
    let r = wait.check_children(&mut vm, 8, &mut caller(), &vec![]);
    assert_eq!(r, Ok(Some(WaitEvent::Reported { index: 0 })));
    assert_eq!(waitpid_value(&wait, WaitEvent::Reported { index: 0 }), 5);
    assert_eq!(vm.io().writes, vec![(8, vec![0xff, 0xff, 0, 0])]);
}

#[test]
fn without_news_the_caller_waits_or_not() {
    let stop = JobStatus::Stopped(Signo { number: 19 });
    let mut data = caller();
    for (options, expected) in [(0, None), (WNOHANG, Some(WaitEvent::Nothing))] {
        let wait = sys_waitpid(-1, options, 1, 1, vec![reporting(6, stop)]).unwrap();
        assert_eq!(wait.exited_child(), None);
        let r = wait.check_children(&mut memory(), 8, &mut data, &TIMES.to_vec());
        assert_eq!(r, Ok(expected));
        assert_eq!(data.children_cpu_time().0, TimeValue::zero());
        assert_eq!(waitpid_value(&wait, WaitEvent::Nothing), 0);
    }
}

#[test]
fn waitid_describes_the_child() {
    let mut data = caller();
    let info: Vec<u8> = (0..SIGINFO_SIZE).map(|i| i as u8).collect();
    let look = |options, data: &mut ProcessData<(), ()>, infop| {
        let wait = sys_waitid(
            P_ALL,
            0,
            options,
            1,
            1,
            PidFdLookup::NotAPidFd,
            vec![child(5, 1), zombie(6, 0)],
        )
        .unwrap();
        let mut vm = memory();
        let r = wait.check_children(&mut vm, infop, &info, data, &TIMES.to_vec());
        (wait.exited_child(), r, vm.into_inner().writes)
    };
    let published = vec![(64, info.clone())];
    assert_eq!(
        look(WEXITED | WNOWAIT, &mut data, 64),
        (Some(1), Ok(Some(WaitIdEvent::Kept { index: 1 })), published.clone())
    );
    assert_eq!(
        look(WEXITED, &mut data, 0x2_0000),
        (Some(1), Err(AxError::BadAddress), vec![])
    );
    assert_eq!(data.children_cpu_time().0, TimeValue::zero());
    assert_eq!(
        look(WEXITED, &mut data, 64),
        (Some(1), Ok(Some(WaitIdEvent::Reaped { index: 1 })), published)
    );
    assert_eq!(data.children_cpu_time().1, TimeValue { secs: 0, nanos: 11 });
    assert_eq!(look(WUNTRACED, &mut data, 64), (None, Ok(None), vec![]));
    assert_eq!(
        look(WUNTRACED | WNOHANG, &mut data, 64),
        (None, Ok(Some(WaitIdEvent::Nothing)), vec![(64, vec![0; SIGINFO_SIZE])])
    );
}

#[test]
fn times_add_up_to_the_longest_span() {
    let mut data = caller();
    assert!(is_addable(&data, &TIMES.to_vec()));
    let bad = TimeValue { secs: 0, nanos: 1_000_000_000 };
    assert!(!is_addable(&data, &vec![(TimeValue::zero(), bad)]));
    let longest = TimeValue { secs: u64::MAX, nanos: 999_999_999 };
    let tick = TimeValue { secs: 0, nanos: 1 };
    assert!(is_addable(&data, &vec![(longest, tick)]));
    assert!(!is_addable(&data, &vec![(longest, tick), (tick, tick)]));
    // Times that are not added need not add up.
    let wait = sys_waitpid(-1, WNOHANG, 1, 1, vec![child(5, 1)]).unwrap();
    let r = wait.check_children(&mut memory(), 0, &mut data, &vec![(longest, bad); 3]);
    assert_eq!(r, Ok(Some(WaitEvent::Nothing)));
}

#[test]
fn bad_options_are_rejected_whatever_the_process() {
    let r = sys_waitpid(i32::MIN, WEXITED, 1, 1, vec![child(5, 1)]);
    assert_eq!(r.unwrap_err(), AxError::InvalidInput);
}

#[test]
fn a_wait_registers_before_it_sleeps() {
    assert_eq!(wait_poll::<WaitEvent>(&Ok(None), false), PollStep::Register);
    assert_eq!(wait_poll::<WaitEvent>(&Ok(None), true), PollStep::Sleep);
    assert_eq!(wait_poll(&Ok(Some(WaitEvent::Nothing)), false), PollStep::Finish);
    assert_eq!(wait_poll::<WaitEvent>(&Err(AxError::BadAddress), true), PollStep::Finish);
}
