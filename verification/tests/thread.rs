use std::sync::atomic::{AtomicBool, Ordering};
use std::sync::Arc;

use starry_process::Process;
use starry_task::arch::Arch;
use starry_task::thread::{
    cred_update_order, initial_cred, syscall_insn_len, AssumeSync, NextSignalCheckBlock, Thread,
    DEFAULT_OOM_SCORE_ADJ,
};

fn thread() -> Thread<u32, Vec<u8>> {
    Thread::new(7, Arc::new(1000), vec![1, 2, 3])
}

#[test]
fn old_global_signal_check_block_leaks_between_threads() {
    let old_block_next_signal_check = AtomicBool::new(false);
    let block_next_signal = || old_block_next_signal_check.store(true, Ordering::SeqCst);
    let unblock_next_signal = || old_block_next_signal_check.swap(false, Ordering::SeqCst);

    // Simulate thread A returning from `rt_sigreturn()`.
    block_next_signal();

    // Simulate thread B reaching the user return path first and incorrectly
    // consuming thread A's one-shot state.
    assert!(
        unblock_next_signal(),
        "the old global flag leaks across logical threads"
    );
    assert!(!unblock_next_signal());
}

#[test]
fn per_thread_signal_check_block_is_isolated() {
    let mut thread_a = NextSignalCheckBlock::new();
    let mut thread_b = NextSignalCheckBlock::new();

    thread_a.block();

    assert!(
        !thread_b.unblock(),
        "thread B must not observe thread A's signal-check block"
    );
    assert!(thread_a.unblock());
    assert!(!thread_a.unblock());
}

#[test]
fn new_threads_have_the_default_settings() {
    let t = thread();
    assert_eq!(t.tid(), 7);
    assert_eq!(t.oom_score_adj(), 200);
    assert_eq!(DEFAULT_OOM_SCORE_ADJ, 200);
    assert_eq!(syscall_insn_len(Arch::X86_64), 2);
    for arch in [Arch::Aarch64, Arch::Riscv64, Arch::Loongarch64] {
        assert_eq!(syscall_insn_len(arch), 4);
    }
    assert_eq!(t.clear_child_tid(), 0);
    assert_eq!(t.robust_list_head(), 0);
    assert_eq!(t.rseq_area(), 0);
    assert_eq!(t.rseq_signature(), 0);
    assert_eq!(t.pdeathsig(), 0);
    assert_eq!(t.fault_dump_signo, 0);
    assert!(!t.pending_exit());
    assert!(!t.has_exit_request());
    assert!(!t.is_accessing_user_memory());
    assert!(!t.no_new_privs());
    assert!(!t.uid_map_written());
    assert!(!t.gid_map_written());
    assert!(!t.setgroups_deny());
    assert_eq!(t.seccomp_state(), vec![1, 2, 3]);
    assert_eq!(*t.cred(), 1000);
}

#[test]
fn settings_are_read_back() {
    let mut t = thread();
    t.set_tid(1);
    t.set_clear_child_tid(0x1000);
    t.set_robust_list_head(0x2000);
    t.set_oom_score_adj(-17);
    t.set_accessing_user_memory(true);
    t.set_pdeathsig(9);
    t.set_no_new_privs();
    t.set_seccomp_state(vec![9]);
    t.set_uid_map_written(true);
    t.set_gid_map_written(true);
    t.set_setgroups_deny(true);
    t.set_rseq_state(0x3000, 0x53053053);
    assert_eq!(t.tid(), 1);
    assert_eq!(t.clear_child_tid(), 0x1000);
    assert_eq!(t.robust_list_head(), 0x2000);
    assert_eq!(t.oom_score_adj(), -17);
    assert!(t.is_accessing_user_memory());
    assert_eq!(t.pdeathsig(), 9);
    assert!(t.no_new_privs());
    assert_eq!(t.seccomp_state(), vec![9]);
    assert!(t.uid_map_written() && t.gid_map_written() && t.setgroups_deny());
    assert_eq!((t.rseq_area(), t.rseq_signature()), (0x3000, 0x53053053));
    t.set_rseq_area(0x4000);
    assert_eq!((t.rseq_area(), t.rseq_signature()), (0x4000, 0x53053053));
    t.clear_rseq_state();
    assert_eq!((t.rseq_area(), t.rseq_signature()), (0, 0));
}

#[test]
fn an_exit_request_is_consumed_once() {
    let mut t = thread();
    assert!(!t.take_exit_request());
    t.set_exit_request();
    assert!(t.has_exit_request());
    assert!(t.take_exit_request());
    assert!(!t.take_exit_request());
    t.set_exit();
    assert!(t.pending_exit());
}

#[test]
fn a_thread_skips_one_signal_check() {
    let mut t = thread();
    assert!(!t.unblock_next_signal_check());
    t.block_next_signal_check();
    assert!(t.unblock_next_signal_check());
    assert!(!t.unblock_next_signal_check());
}

#[test]
fn credentials_come_from_the_parent_or_from_root() {
    let parent = Arc::new(1000u32);
    assert!(Arc::ptr_eq(&initial_cred(Some(parent.clone()), 0), &parent));
    assert_eq!(*initial_cred(None, 0u32), 0);
}

#[test]
fn credentials_are_updated_by_ascending_thread_id() {
    assert_eq!(cred_update_order(vec![30, 10, 20, 10]), vec![10, 10, 20, 30]);
    assert_eq!(cred_update_order(vec![]), Vec::<u32>::new());
}

#[test]
fn new_credentials_reach_all_threads_of_the_process() {
    let process = Process::new_init(1);
    process.add_thread(12);
    process.add_thread(3);
    process.add_thread(7);
    let mut t = thread();
    let (cred, order) = t.set_cred(&process, 0);
    assert_eq!(*t.cred(), 0);
    assert!(Arc::ptr_eq(&cred, &t.cred()));
    assert_eq!(order, vec![3, 7, 12]);
    let mut other = thread();
    other.set_cred_single(cred.clone());
    assert_eq!(*other.cred(), 0);
}

#[test]
fn an_assumed_value_is_reached_through_its_wrapper() {
    let wrapped = AssumeSync(String::from("value"));
    assert_eq!(wrapped.len(), 5);
    assert_eq!(wrapped.0, "value");
}
