use std::sync::Arc;

use starry_process::Process;
use starry_task::auxv::AuxEntry;
use starry_task::clone::{add_thread, child_process, fork_parent, fork_process};
use starry_task::entry::{init, init_process, init_thread, InitOp, INIT_PID};
use starry_task::errno::AxError;
use starry_task::exec::{install_image, replace_address_space};
use starry_task::process::{
    wait_vfork_done, JobStatus, ProcessData, TimeValue, VforkWait,
};
use starry_task::process_tree::{child_nodes, free_terminated, nodes_of, ProcessNode};
use starry_task::signo::Signo;

fn data(exit_signal: Option<u8>) -> ProcessData<&'static str, u32> {
    let image = starry_task::process::ProcessImage::new(
        String::from("/bin/app"),
        Arc::new(vec![String::from("app")]),
        vec![AuxEntry { kind: 6, value: 4096 }],
    );
    ProcessData::new(
        Process::new_init(1),
        image,
        "space",
        0x4000_0000,
        exit_signal.map(|number| Signo { number }),
        1,
        true,
    )
}

#[test]
fn new_processes_have_the_default_settings() {
    let d = data(None);
    assert_eq!(d.umask(), 0o022);
    assert_eq!(d.nice(), 0);
    assert_eq!(d.membarrier_state(), 0);
    assert_eq!(d.dumpable(), 1);
    assert_eq!(d.thp_disable(), 0);
    assert_eq!(d.personality(), 0);
    assert_eq!(d.get_heap_top(), 0x4000_0000);
    assert_eq!(d.children_cpu_time(), (TimeValue::zero(), TimeValue::zero()));
    assert!(d.vm_aspace_shared());
    assert!(!d.is_job_stopped());
    assert_eq!(d.continue_generation(), 0);
    assert_eq!(*d.aspace(), "space");
    assert_eq!((d.exe_path.as_str(), d.wait_parent_tid), ("/bin/app", 1));
}

#[test]
fn process_settings_are_read_back() {
    let mut d = data(None);
    d.set_umask(0o077);
    assert_eq!(d.replace_umask(0o027), 0o077);
    assert_eq!(d.umask(), 0o027);
    d.set_nice(-5);
    d.register_membarrier_state(0b101);
    d.register_membarrier_state(0b010);
    d.set_dumpable(0);
    d.set_thp_disable(1);
    d.set_heap_top(0x5000_0000);
    assert_eq!(d.replace_personality(0x40000), 0);
    assert_eq!(d.personality(), 0x40000);
    assert_eq!((d.nice(), d.membarrier_state(), d.dumpable()), (-5, 0b111, 0));
    assert_eq!((d.thp_disable(), d.get_heap_top()), (1, 0x5000_0000));
}

#[test]
fn clone_children_do_not_send_sigchld() {
    assert!(data(None).is_clone_child());
}

#[test]
fn ordinary_children_send_sigchld() {
    assert!(!data(Some(17)).is_clone_child());
}

#[test]
fn children_with_another_signal_are_clone_children() {
    assert!(data(Some(10)).is_clone_child());
}

#[test]
fn a_stop_is_reported_once_and_lasts() {
    let mut d = data(None);
    let stop = Signo { number: 19 };
    let seen = d.continue_generation();
    assert!(d.set_job_stopped(stop, seen));
    assert!(d.is_job_stopped());
    assert_eq!(d.peek_job_status_if(false, true), None);
    assert_eq!(d.peek_job_status_if(true, false), Some(JobStatus::Stopped(stop)));
    assert_eq!(d.take_job_status_if(false, true), None);
    assert_eq!(d.take_job_status_if(true, true), Some(JobStatus::Stopped(stop)));
    assert_eq!(d.take_job_status_if(true, true), None);
    assert!(d.is_job_stopped());
    assert!(d.set_job_continued());
    assert!(!d.is_job_stopped());
    assert_eq!(d.peek_job_status_if(true, true), Some(JobStatus::Continued));
    assert!(!d.set_job_continued());
}

#[test]
fn a_continuation_cancels_a_stop_under_way() {
    let mut d = data(None);
    let seen = d.continue_generation();
    assert!(!d.set_job_continued());
    assert!(!d.set_job_stopped(Signo { number: 19 }, seen));
    assert!(!d.is_job_stopped());
    assert_eq!(d.peek_job_status_if(true, true), None);
}

#[test]
fn a_kill_lifts_a_stop_without_a_report() {
    let mut d = data(None);
    let stop = Signo { number: 20 };
    assert!(!d.clear_job_stop_for_kill());
    assert!(d.set_job_stopped(stop, 0));
    assert!(d.clear_job_stop_for_kill());
    assert!(!d.is_job_stopped());
    assert_eq!(d.peek_job_status_if(true, true), Some(JobStatus::Stopped(stop)));
    assert_eq!(d.continue_generation(), 0);
}

#[test]
fn times_carry_into_seconds() {
    let mut d = data(None);
    let t = |secs, nanos| TimeValue { secs, nanos };
    d.add_child_cpu_time(t(1, 600_000_000), t(0, 1));
    d.add_child_cpu_time(t(2, 500_000_000), t(0, 2));
    assert_eq!(d.children_cpu_time(), (t(4, 100_000_000), t(0, 3)));
    assert_eq!(t(0, 999_999_999).plus(t(0, 1)), t(1, 0));
    assert_eq!(t(u64::MAX, 1).plus(t(0, 2)), t(u64::MAX, 3));
}

#[test]
fn the_slot_is_released_once() {
    let mut d = data(None);
    assert!(d.release_aspace_slot_if_needed());
    assert!(!d.release_aspace_slot_if_needed());
}

#[test]
fn a_vfork_notification_is_not_lost() {
    let mut d = data(None);
    assert!(d.is_vfork_done());
    assert!(!d.notify_vfork_done());
    d.set_vfork_done(5);
    assert!(!d.is_vfork_done());
    assert!(d.notify_vfork_done());
    assert!(d.is_vfork_done());
    assert_eq!(d.vfork_done.as_ref().map(|v| v.poll), Some(5));
}

#[test]
fn only_completion_or_an_exit_request_ends_the_wait() {
    assert_eq!(wait_vfork_done(false, false, true), VforkWait::Sleep);
    assert_eq!(wait_vfork_done(true, false, false), VforkWait::Return);
    assert_eq!(wait_vfork_done(false, true, false), VforkWait::Sleep);
    assert_eq!(wait_vfork_done(false, true, true), VforkWait::Return);
}

#[test]
fn a_new_image_replaces_the_old_one() {
    let mut d = data(None);
    assert_eq!(replace_address_space(&mut d, "new"), "space");
    assert_eq!(*d.aspace(), "new");
    assert!(!d.vm_aspace_shared());
    let args = vec![String::from("ls"), String::from("-l")];
    install_image(&mut d, String::from("/bin/ls"), args.clone(), vec![], 0x1000);
    assert_eq!(d.exe_path, "/bin/ls");
    assert_eq!(*d.cmdline, args);
    assert!(d.auxv.is_empty());
    assert_eq!(d.get_heap_top(), 0x1000);
}

#[test]
fn a_child_process_inherits_from_its_parent() {
    let mut parent = data(Some(17));
    parent.set_umask(0o077);
    parent.set_nice(3);
    parent.set_dumpable(0);
    parent.set_thp_disable(1);
    parent.set_heap_top(0x7777);
    parent.replace_personality(9);
    parent.register_membarrier_state(1);
    let proc = fork_process(&parent.proc, false, 42).unwrap();
    let child = child_process(&parent, proc, "copy", 0, Some(Signo { number: 17 }), 8, false);
    assert_eq!(ProcessNode::of(&child.proc).pid, 42);
    assert_eq!(child.exe_path, "/bin/app");
    assert!(Arc::ptr_eq(&child.cmdline, &parent.cmdline));
    assert_eq!(child.auxv, parent.auxv);
    assert_eq!((child.umask(), child.nice(), child.dumpable()), (0o077, 3, 0));
    assert_eq!((child.thp_disable(), child.get_heap_top()), (1, 0x7777));
    assert_eq!((child.personality(), child.membarrier_state()), (9, 0));
    assert_eq!((child.wait_parent_tid, child.vm_aspace_shared()), (8, false));
    assert_eq!(*child.aspace(), "copy");
}

#[test]
fn a_sibling_needs_a_parent() {
    let first = Process::new_init(1);
    assert_eq!(fork_process(&first, true, 5).unwrap_err(), AxError::InvalidInput);
    let child = fork_process(&first, false, 2).unwrap();
    let sibling = fork_process(&child, true, 3).unwrap();
    assert!(Arc::ptr_eq(&sibling.parent().unwrap(), &first));
    assert!(Arc::ptr_eq(
        &fork_parent(child.clone(), Some(first.clone()), true).unwrap(),
        &first
    ));
    assert!(Arc::ptr_eq(
        &fork_parent(child.clone(), Some(first), false).unwrap(),
        &child
    ));
    assert_eq!(fork_parent(child, None, true).unwrap_err(), AxError::InvalidInput);
}

#[test]
fn only_a_terminated_process_is_removed() {
    let first = Process::new_init(1);
    let child = fork_process(&first, false, 2).unwrap();
    assert!(Arc::ptr_eq(&child.parent().unwrap(), &first));
    add_thread(&child, 2);
    add_thread(&child, 7);
    assert_eq!(child.threads(), vec![2, 7]);
    assert!(!free_terminated(&child));
    assert_eq!(first.children().len(), 1);
    child.exit();
    assert!(free_terminated(&child));
    assert!(first.children().is_empty());
}

#[test]
fn the_tree_is_read_as_plain_values() {
    let first = Process::new_init(1);
    let child = first.fork(20);
    child.add_thread(20);
    child.add_thread(11);
    child.exit_thread(20, 7);
    child.exit();
    let nodes = child_nodes(&first);
    assert_eq!(nodes.len(), 1);
    assert!(Arc::ptr_eq(&nodes[0].0, &child));
    let node = &nodes[0].1;
    assert_eq!((node.pid, node.pgid, node.exit_code, node.zombie), (20, 1, 7, true));
    assert_eq!(node.threads, vec![11]);
    assert_eq!(nodes_of(&vec![first, child]).len(), 2);
}

#[test]
fn children_are_listed_by_ascending_id() {
    let first = Process::new_init(1);
    for pid in [30, 12, 25] {
        first.fork(pid);
    }
    let pids: Vec<u32> = child_nodes(&first).iter().map(|n| n.1.pid).collect();
    assert_eq!(pids, vec![12, 25, 30]);
}

#[test]
fn the_first_process_has_the_id_one() {
    let args = vec![String::from("/init")];
    let envs = vec![String::from("A=1")];
    let run = init(&args, &envs);
    assert_eq!((run.path.as_str(), run.args, run.envs), ("/init", &args, &envs));
    let ops = run.ops;
    assert_eq!(ops.len(), 19);
    assert!(ops.contains(&InitOp::CreateProcess { pid: 1 }));
    assert_eq!(&ops[16..], &[InitOp::Join, InitOp::UnmountAll, InitOp::Flush]);
    assert_eq!(ops[14], InitOp::Spawn);
    assert_eq!(INIT_PID, 1);
    let d: ProcessData<u8, u8> = init_process(
        Process::new_init(INIT_PID),
        String::from("/init"),
        args.clone(),
        vec![],
        0,
        0x1000,
    );
    assert_eq!((d.exit_signal, d.wait_parent_tid), (None, 1));
    assert_eq!(*d.cmdline, args);
    let t = init_thread(0u32, ());
    assert_eq!((t.tid(), *t.cred()), (1, 0));
}
