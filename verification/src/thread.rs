//! State of a thread.

use std::ops::Deref;
use std::sync::Arc;
use starry_process::Process;
use vstd::prelude::*;
use crate::arch::Arch;

verus! {

/// The out-of-memory score adjustment of a new thread.
pub const DEFAULT_OOM_SCORE_ADJ: i32 = 200;

/// The size of the instruction that makes a system call, by which the program
/// counter is moved back to make the call again.
pub fn syscall_insn_len(arch: Arch) -> (r: usize)
    ensures
        r == (match arch {
            Arch::X86_64 => 2usize,
            Arch::Aarch64 | Arch::Riscv64 | Arch::Loongarch64 => 4,
        }),
{
    match arch {
        Arch::X86_64 => 2,
        Arch::Aarch64 | Arch::Riscv64 | Arch::Loongarch64 => 4,
    }
}

/// A value that is taken to be shareable between threads.
#[derive(Debug)]
pub struct AssumeSync<T>(pub T);

impl<T> Deref for AssumeSync<T> {
    type Target = T;

    fn deref(&self) -> (r: &T)
        ensures
            *r == self.0,
    {
        &self.0
    }
}

/// A one-shot flag that suppresses exactly one signal check.
#[derive(Debug)]
pub struct NextSignalCheckBlock {
    /// Whether the next check is suppressed.
    pub blocked: bool,
}

impl NextSignalCheckBlock {
    /// The flag that suppresses nothing.
    pub open spec fn clear() -> NextSignalCheckBlock {
        NextSignalCheckBlock { blocked: false }
    }

    /// The flag once the next check is to be suppressed.
    pub open spec fn after_block(self) -> NextSignalCheckBlock {
        NextSignalCheckBlock { blocked: true }
    }

    /// The flag once a check has asked for it.
    pub open spec fn after_unblock(self) -> NextSignalCheckBlock {
        NextSignalCheckBlock { blocked: false }
    }

    /// A flag that suppresses nothing.
    pub fn new() -> (r: Self)
        ensures
            r == NextSignalCheckBlock::clear(),
    {
        NextSignalCheckBlock { blocked: false }
    }

    /// Suppresses the next check.
    pub fn block(&mut self)
        ensures
            *final(self) == old(self).after_block(),
    {
        self.blocked = true;
    }

    /// Whether the next check is suppressed; the one after it is not.
    pub fn unblock(&mut self) -> (r: bool)
        ensures
            r == old(self).blocked,
            *final(self) == old(self).after_unblock(),
    {
        let blocked = self.blocked;
        self.blocked = false;
        blocked
    }
}

/// However often a check is to be suppressed before it comes, exactly one is:
/// the next one is, and the one after it is not.
pub proof fn law_one_check_is_suppressed(block: NextSignalCheckBlock)
    ensures
        !NextSignalCheckBlock::clear().blocked,
        block.after_block().blocked,
        block.after_block().after_block() == block.after_block(),
        !block.after_block().after_unblock().blocked,
{
}

/// State of a thread.
///
/// `C` denotes credentials, `S` the state of the system-call filter.
#[derive(Debug)]
pub struct Thread<C, S> {
    /// The thread id that user space sees.
    ///
    /// It begins as the id of the scheduler's task and becomes the process id
    /// when a thread other than the leader executes a new image.
    pub tid: u32,
    /// The address that is cleared when the thread exits.
    pub clear_child_tid: usize,
    /// The head of the list of robust futexes.
    pub robust_list_head: usize,
    /// The out-of-memory score adjustment.
    pub oom_score_adj: i32,
    /// Whether the thread is to exit.
    pub exit: bool,
    /// Whether the thread is accessing user memory.
    pub accessing_user_memory: bool,
    /// Skips one signal check after the return from a handler.
    pub block_next_signal_check: NextSignalCheckBlock,
    /// Whether the thread alone is to exit, because another one executes a
    /// new image.
    pub exit_request: bool,
    /// The registered `rseq` area.
    pub rseq_area: usize,
    /// The signature registered with it.
    pub rseq_signature: u32,
    /// The signal sent to the thread when its parent exits.
    pub pdeathsig: u32,
    /// Whether no new privileges can be gained.
    pub no_new_privs: bool,
    /// The state of the system-call filter.
    pub seccomp: S,
    /// The credentials.
    pub cred: Arc<C>,
    /// The signal of the fault to be dumped when it terminates the thread;
    /// zero if there is none.
    pub fault_dump_signo: u8,
    /// Whether the user id map has been written.
    pub uid_map_written: bool,
    /// Whether the group id map has been written.
    pub gid_map_written: bool,
    /// Whether `setgroups` is denied.
    pub setgroups_deny: bool,
}

/// The credentials of a new thread: those of its parent, or `root` for the
/// first thread of all, which has none.
pub fn initial_cred<C>(parent_cred: Option<Arc<C>>, root: C) -> (r: Arc<C>)
    ensures
        match parent_cred {
            Some(cred) => r == cred,
            None => *r == root,
        },
{
    match parent_cred {
        Some(cred) => cred,
        None => Arc::new(root),
    }
}

/// Sorts thread ids: `[u32]::sort_unstable` puts the elements of a slice in
/// ascending order.
#[verifier::external_body]
fn sort_tids(tids: &mut Vec<u32>)
    ensures
        final(tids)@.to_multiset() == old(tids)@.to_multiset(),
        forall|i: int, j: int|
            0 <= i <= j < final(tids)@.len() ==> final(tids)@[i] <= final(tids)@[j],
{
    tids.sort_unstable()
}

/// The order in which the threads `tids` of a process are given new
/// credentials: every one of them, by ascending id, so that two threads that
/// do this at the same time cannot block each other.
pub fn cred_update_order(tids: Vec<u32>) -> (r: Vec<u32>)
    ensures
        r@.to_multiset() == tids@.to_multiset(),
        forall|i: int, j: int| 0 <= i <= j < r@.len() ==> r@[i] <= r@[j],
{
    let mut order = tids;
    sort_tids(&mut order);
    order
}

impl<C, S> Thread<C, S> {
    /// A new thread with the credentials `cred` and the filter state
    /// `seccomp`.
    pub fn new(tid: u32, cred: Arc<C>, seccomp: S) -> (r: Self)
        ensures
            r == (Thread {
                tid,
                clear_child_tid: 0,
                robust_list_head: 0,
                oom_score_adj: DEFAULT_OOM_SCORE_ADJ,
                exit: false,
                accessing_user_memory: false,
                block_next_signal_check: NextSignalCheckBlock { blocked: false },
                exit_request: false,
                rseq_area: 0,
                rseq_signature: 0,
                pdeathsig: 0,
                no_new_privs: false,
                seccomp,
                cred,
                fault_dump_signo: 0,
                uid_map_written: false,
                gid_map_written: false,
                setgroups_deny: false,
            }),
    {
        Thread {
            tid,
            clear_child_tid: 0,
            robust_list_head: 0,
            oom_score_adj: DEFAULT_OOM_SCORE_ADJ,
            exit: false,
            accessing_user_memory: false,
            block_next_signal_check: NextSignalCheckBlock::new(),
            exit_request: false,
            rseq_area: 0,
            rseq_signature: 0,
            pdeathsig: 0,
            no_new_privs: false,
            seccomp,
            cred,
            fault_dump_signo: 0,
            uid_map_written: false,
            gid_map_written: false,
            setgroups_deny: false,
        }
    }

    /// The thread id that user space sees.
    pub fn tid(&self) -> (r: u32)
        ensures
            r == self.tid,
    {
        self.tid
    }

    /// Sets the thread id that user space sees.
    pub fn set_tid(&mut self, tid: u32)
        ensures
            *final(self) == (Thread { tid, ..*old(self) }),
    {
        self.tid = tid;
    }

    /// The address that is cleared when the thread exits.
    pub fn clear_child_tid(&self) -> (r: usize)
        ensures
            r == self.clear_child_tid,
    {
        self.clear_child_tid
    }

    /// Sets the address that is cleared when the thread exits.
    pub fn set_clear_child_tid(&mut self, clear_child_tid: usize)
        ensures
            *final(self) == (Thread { clear_child_tid, ..*old(self) }),
    {
        self.clear_child_tid = clear_child_tid;
    }

    /// The head of the list of robust futexes.
    pub fn robust_list_head(&self) -> (r: usize)
        ensures
            r == self.robust_list_head,
    {
        self.robust_list_head
    }

    /// Sets the head of the list of robust futexes.
    pub fn set_robust_list_head(&mut self, robust_list_head: usize)
        ensures
            *final(self) == (Thread { robust_list_head, ..*old(self) }),
    {
        self.robust_list_head = robust_list_head;
    }

    /// The out-of-memory score adjustment.
    pub fn oom_score_adj(&self) -> (r: i32)
        ensures
            r == self.oom_score_adj,
    {
        self.oom_score_adj
    }

    /// Sets the out-of-memory score adjustment.
    pub fn set_oom_score_adj(&mut self, value: i32)
        ensures
            *final(self) == (Thread { oom_score_adj: value, ..*old(self) }),
    {
        self.oom_score_adj = value;
    }

    /// Whether the thread is to exit.
    pub fn pending_exit(&self) -> (r: bool)
        ensures
            r == self.exit,
    {
        self.exit
    }

    /// Makes the thread exit.
    pub fn set_exit(&mut self)
        ensures
            *final(self) == (Thread { exit: true, ..*old(self) }),
    {
        self.exit = true;
    }

    /// Whether the thread alone is to exit; the request is consumed.
    pub fn take_exit_request(&mut self) -> (r: bool)
        ensures
            r == old(self).exit_request,
            *final(self) == (Thread { exit_request: false, ..*old(self) }),
    {
        let requested = self.exit_request;
        self.exit_request = false;
        requested
    }

    /// Whether the thread alone is to exit; the request stays.
    pub fn has_exit_request(&self) -> (r: bool)
        ensures
            r == self.exit_request,
    {
        self.exit_request
    }

    /// Requests that the thread alone exits.
    pub fn set_exit_request(&mut self)
        ensures
            *final(self) == (Thread { exit_request: true, ..*old(self) }),
    {
        self.exit_request = true;
    }

    /// Whether the thread is accessing user memory.
    pub fn is_accessing_user_memory(&self) -> (r: bool)
        ensures
            r == self.accessing_user_memory,
    {
        self.accessing_user_memory
    }

    /// Sets whether the thread is accessing user memory.
    pub fn set_accessing_user_memory(&mut self, accessing: bool)
        ensures
            *final(self) == (Thread { accessing_user_memory: accessing, ..*old(self) }),
    {
        self.accessing_user_memory = accessing;
    }

    /// The signal sent to the thread when its parent exits.
    pub fn pdeathsig(&self) -> (r: u32)
        ensures
            r == self.pdeathsig,
    {
        self.pdeathsig
    }

    /// Sets the signal sent to the thread when its parent exits.
    pub fn set_pdeathsig(&mut self, sig: u32)
        ensures
            *final(self) == (Thread { pdeathsig: sig, ..*old(self) }),
    {
        self.pdeathsig = sig;
    }

    /// Whether no new privileges can be gained.
    pub fn no_new_privs(&self) -> (r: bool)
        ensures
            r == self.no_new_privs,
    {
        self.no_new_privs
    }

    /// Rules out new privileges, for good.
    pub fn set_no_new_privs(&mut self)
        ensures
            *final(self) == (Thread { no_new_privs: true, ..*old(self) }),
    {
        self.no_new_privs = true;
    }

    /// A copy of the state of the system-call filter.
    pub fn seccomp_state(&self) -> (r: S) where S: Clone
        ensures
            cloned(self.seccomp, r),
    {
        self.seccomp.clone()
    }

    /// Replaces the state of the system-call filter.
    pub fn set_seccomp_state(&mut self, state: S)
        ensures
            *final(self) == (Thread { seccomp: state, ..*old(self) }),
    {
        self.seccomp = state;
    }

    /// The credentials.
    pub fn cred(&self) -> (r: Arc<C>)
        ensures
            r == self.cred,
    {
        self.cred.clone()
    }

    /// Replaces the credentials of this thread only.
    pub fn set_cred_single(&mut self, new_cred: Arc<C>)
        ensures
            *final(self) == (Thread { cred: new_cred, ..*old(self) }),
    {
        self.cred = new_cred;
    }

    /// The registered `rseq` area.
    pub fn rseq_area(&self) -> (r: usize)
        ensures
            r == self.rseq_area,
    {
        self.rseq_area
    }

    /// The signature registered with the `rseq` area.
    pub fn rseq_signature(&self) -> (r: u32)
        ensures
            r == self.rseq_signature,
    {
        self.rseq_signature
    }

    /// Whether the user id map has been written.
    pub fn uid_map_written(&self) -> (r: bool)
        ensures
            r == self.uid_map_written,
    {
        self.uid_map_written
    }

    /// Sets whether the user id map has been written.
    pub fn set_uid_map_written(&mut self, val: bool)
        ensures
            *final(self) == (Thread { uid_map_written: val, ..*old(self) }),
    {
        self.uid_map_written = val;
    }

    /// Whether the group id map has been written.
    pub fn gid_map_written(&self) -> (r: bool)
        ensures
            r == self.gid_map_written,
    {
        self.gid_map_written
    }

    /// Sets whether the group id map has been written.
    pub fn set_gid_map_written(&mut self, val: bool)
        ensures
            *final(self) == (Thread { gid_map_written: val, ..*old(self) }),
    {
        self.gid_map_written = val;
    }

    /// Whether `setgroups` is denied.
    pub fn setgroups_deny(&self) -> (r: bool)
        ensures
            r == self.setgroups_deny,
    {
        self.setgroups_deny
    }

    /// Sets whether `setgroups` is denied.
    pub fn set_setgroups_deny(&mut self, val: bool)
        ensures
            *final(self) == (Thread { setgroups_deny: val, ..*old(self) }),
    {
        self.setgroups_deny = val;
    }

    /// Sets the registered `rseq` area.
    pub fn set_rseq_area(&mut self, addr: usize)
        ensures
            *final(self) == (Thread { rseq_area: addr, ..*old(self) }),
    {
        self.rseq_area = addr;
    }

    /// Registers an `rseq` area with its signature.
    pub fn set_rseq_state(&mut self, addr: usize, sig: u32)
        ensures
            *final(self) == (Thread { rseq_area: addr, rseq_signature: sig, ..*old(self) }),
    {
        self.rseq_area = addr;
        self.rseq_signature = sig;
    }

    /// Removes the registration of an `rseq` area.
    pub fn clear_rseq_state(&mut self)
        ensures
            *final(self) == (Thread { rseq_area: 0, rseq_signature: 0, ..*old(self) }),
    {
        self.rseq_area = 0;
        self.rseq_signature = 0;
    }

    /// Skips the next signal check of this thread.
    pub fn block_next_signal_check(&mut self)
        ensures
            *final(self) == (Thread {
                block_next_signal_check: NextSignalCheckBlock { blocked: true },
                ..*old(self)
            }),
    {
        self.block_next_signal_check.block();
    }

    /// Whether the next signal check of this thread is skipped; the one after
    /// it is not.
    pub fn unblock_next_signal_check(&mut self) -> (r: bool)
        ensures
            r == old(self).block_next_signal_check.blocked,
            *final(self) == (Thread {
                block_next_signal_check: NextSignalCheckBlock { blocked: false },
                ..*old(self)
            }),
    {
        self.block_next_signal_check.unblock()
    }

    /// Replaces the credentials of this thread, at once, and returns them with
    /// the threads of its process that have to follow, in the order of
    /// [`cred_update_order`]. Which threads these are depends on the moment of
    /// the call: they are those of a list that
    /// `starry_process::Process::threads` gave, every one of them.
    pub fn set_cred(&mut self, proc: &Process, new_cred: C) -> (r: (Arc<C>, Vec<u32>))
        ensures
            *r.0 == new_cred,
            *final(self) == (Thread { cred: r.0, ..*old(self) }),
            exists|tids: Vec<u32>|
                #[trigger] call_ensures(Process::threads, (proc,), tids) && r.1@.to_multiset()
                    == tids@.to_multiset(),
            forall|i: int, j: int| 0 <= i <= j < r.1@.len() ==> r.1@[i] <= r.1@[j],
    {
        let new_arc = Arc::new(new_cred);
        self.set_cred_single(new_arc.clone());
        (new_arc, cred_update_order(proc.threads()))
    }
}

/// A new thread has the id, the credentials and the filter that it is given, and
/// nothing else is set but the usual score.
pub proof fn law_new_thread_has_nothing_set<C, S>(
    tid: u32,
    cred: Arc<C>,
    seccomp: S,
    r: Thread<C, S>,
)
    requires
        call_ensures(Thread::<C, S>::new, (tid, cred, seccomp), r),
    ensures
        r.tid == tid && r.cred == cred && r.seccomp == seccomp && r.oom_score_adj == 200,
        r.clear_child_tid == 0 && r.robust_list_head == 0 && r.pdeathsig == 0,
        r.rseq_area == 0 && r.rseq_signature == 0 && r.fault_dump_signo == 0,
        !r.exit && !r.exit_request && !r.accessing_user_memory && !r.no_new_privs,
        !r.block_next_signal_check.blocked,
        !r.uid_map_written && !r.gid_map_written && !r.setgroups_deny,
{
}

/// The first thread of all is given root's credentials, every other one those of
/// its parent.
pub proof fn law_credentials_are_inherited<C>(parent_cred: Option<Arc<C>>, root: C, r: Arc<C>)
    requires
        call_ensures(initial_cred::<C>, (parent_cred, root), r),
    ensures
        parent_cred matches Some(cred) ==> r == cred,
        parent_cred is None ==> *r == root,
{
}

/// A call is made again from its instruction, which has two bytes on `X86_64` and
/// four elsewhere.
pub proof fn law_call_instructions(arch: Arch, r: usize)
    requires
        call_ensures(syscall_insn_len, (arch,), r),
    ensures
        r == 2 <==> arch is X86_64,
        r == 2 || r == 4,
{
}

/// All threads are given new credentials, each as often as it was listed, and
/// never one before another with a lower id.
pub proof fn law_threads_follow_by_id(tids: Vec<u32>, r: Vec<u32>)
    requires
        call_ensures(cred_update_order, (tids,), r),
    ensures
        forall|tid: u32| #[trigger] r@.contains(tid) <==> tids@.contains(tid),
        r@.len() == tids@.len(),
        forall|i: int, j: int| 0 <= i < j < r@.len() ==> r@[i] <= r@[j],
{
    broadcast use vstd::seq_lib::group_to_multiset_ensures;

    assert forall|tid: u32| #[trigger] r@.contains(tid) <==> tids@.contains(tid) by {
        assert(r@.contains(tid) <==> r@.to_multiset().count(tid) > 0);
        assert(tids@.contains(tid) <==> tids@.to_multiset().count(tid) > 0);
    }
    assert(r@.to_multiset().len() == r@.len());
    assert(tids@.to_multiset().len() == tids@.len());
}

/// New credentials are those of the thread at once, and are what is handed to the
/// threads that follow.
pub proof fn law_new_credentials_are_handed_on<C, S>(
    thread: &mut Thread<C, S>,
    proc: &Process,
    new_cred: C,
    r: (Arc<C>, Vec<u32>),
    now: Arc<C>,
)
    requires
        call_ensures(Thread::<C, S>::set_cred, (thread, proc, new_cred), r),
        call_ensures(Thread::<C, S>::cred, (final(thread),), now),
    ensures
        *now == new_cred && *r.0 == new_cred,
        *final(thread) == (Thread { cred: now, ..*old(thread) }),
        exists|tids: Vec<u32>|
            #[trigger] call_ensures(Process::threads, (proc,), tids) && r.1@.to_multiset()
                == tids@.to_multiset(),
        forall|i: int, j: int| 0 <= i < j < r.1@.len() ==> r.1@[i] <= r.1@[j],
{
}

/// A check that is to be skipped is, and the one after it is not, however often
/// it was asked for.
pub proof fn law_next_check_is_skipped<C, S>(
    first: &mut Thread<C, S>,
    again: &mut Thread<C, S>,
    next: &mut Thread<C, S>,
    after: &mut Thread<C, S>,
    skipped: bool,
    then: bool,
)
    requires
        call_ensures(Thread::<C, S>::block_next_signal_check, (first,), ()),
        *old(again) == *final(first),
        call_ensures(Thread::<C, S>::block_next_signal_check, (again,), ()),
        *old(next) == *final(again),
        call_ensures(Thread::<C, S>::unblock_next_signal_check, (next,), skipped),
        *old(after) == *final(next),
        call_ensures(Thread::<C, S>::unblock_next_signal_check, (after,), then),
    ensures
        skipped && !then,
        *final(after) == (Thread {
            block_next_signal_check: final(after).block_next_signal_check,
            ..*old(first)
        }),
{
}

/// The same of the flag alone, which suppresses nothing at first.
pub proof fn law_flag_suppresses_one_check(
    new: NextSignalCheckBlock,
    first: &mut NextSignalCheckBlock,
    next: &mut NextSignalCheckBlock,
    after: &mut NextSignalCheckBlock,
    skipped: bool,
    then: bool,
)
    requires
        call_ensures(NextSignalCheckBlock::new, (), new),
        call_ensures(NextSignalCheckBlock::block, (first,), ()),
        *old(next) == *final(first),
        call_ensures(NextSignalCheckBlock::unblock, (next,), skipped),
        *old(after) == *final(next),
        call_ensures(NextSignalCheckBlock::unblock, (after,), then),
    ensures
        !new.blocked && skipped && !then,
{
}

/// A request to exit is there until it is taken, and is taken once.
pub proof fn law_exit_request_is_taken_once<C, S>(
    asked: &mut Thread<C, S>,
    there: bool,
    taking: &mut Thread<C, S>,
    taken: bool,
    left: bool,
)
    requires
        call_ensures(Thread::<C, S>::set_exit_request, (asked,), ()),
        call_ensures(Thread::<C, S>::has_exit_request, (final(asked),), there),
        *old(taking) == *final(asked),
        call_ensures(Thread::<C, S>::take_exit_request, (taking,), taken),
        call_ensures(Thread::<C, S>::has_exit_request, (final(taking),), left),
    ensures
        there && taken && !left,
        *final(taking) == (Thread { exit_request: false, ..*old(asked) }),
{
}

/// A request that is not there is not taken.
pub proof fn law_no_exit_without_request<C, S>(
    thread: &mut Thread<C, S>,
    there: bool,
    taken: bool,
)
    requires
        call_ensures(Thread::<C, S>::has_exit_request, (old(thread),), there),
        call_ensures(Thread::<C, S>::take_exit_request, (thread,), taken),
    ensures
        taken == there,
{
}

/// A thread that was made to exit, or ruled out new privileges, stays so.
pub proof fn law_exit_and_privileges_are_final<C, S>(
    exiting: &mut Thread<C, S>,
    exits: bool,
    restricted: &mut Thread<C, S>,
    restricts: bool,
)
    requires
        call_ensures(Thread::<C, S>::set_exit, (exiting,), ()),
        call_ensures(Thread::<C, S>::pending_exit, (final(exiting),), exits),
        call_ensures(Thread::<C, S>::set_no_new_privs, (restricted,), ()),
        call_ensures(Thread::<C, S>::no_new_privs, (final(restricted),), restricts),
    ensures
        exits && restricts,
        *final(exiting) == (Thread { exit: true, ..*old(exiting) }),
        *final(restricted) == (Thread { no_new_privs: true, ..*old(restricted) }),
{
}

/// An area is registered with its signature, may be replaced, and is gone with it.
pub proof fn law_rseq_area_is_registered<C, S>(
    registered: &mut Thread<C, S>,
    addr: usize,
    sig: u32,
    area: usize,
    signature: u32,
    moved: &mut Thread<C, S>,
    to: usize,
    removed: &mut Thread<C, S>,
)
    requires
        call_ensures(Thread::<C, S>::set_rseq_state, (registered, addr, sig), ()),
        call_ensures(Thread::<C, S>::rseq_area, (final(registered),), area),
        call_ensures(Thread::<C, S>::rseq_signature, (final(registered),), signature),
        call_ensures(Thread::<C, S>::set_rseq_area, (moved, to), ()),
        call_ensures(Thread::<C, S>::clear_rseq_state, (removed,), ()),
    ensures
        area == addr && signature == sig,
        *final(registered) == (Thread {
            rseq_area: addr,
            rseq_signature: sig,
            ..*old(registered)
        }),
        *final(moved) == (Thread { rseq_area: to, ..*old(moved) }),
        *final(removed) == (Thread { rseq_area: 0, rseq_signature: 0, ..*old(removed) }),
{
}

/// The id of a thread is read as it was set, and nothing else changes.
pub proof fn law_tid_is_read_back<C, S>(thread: &mut Thread<C, S>, value: u32, read: u32)
    requires
        call_ensures(Thread::<C, S>::set_tid, (thread, value), ()),
        call_ensures(Thread::<C, S>::tid, (final(thread),), read),
    ensures
        read == value,
        *final(thread) == (Thread { tid: value, ..*old(thread) }),
{
}

/// The address to be cleared is read as it was set, and nothing else changes.
pub proof fn law_clear_child_tid_is_read_back<C, S>(thread: &mut Thread<C, S>, value: usize, read: usize)
    requires
        call_ensures(Thread::<C, S>::set_clear_child_tid, (thread, value), ()),
        call_ensures(Thread::<C, S>::clear_child_tid, (final(thread),), read),
    ensures
        read == value,
        *final(thread) == (Thread { clear_child_tid: value, ..*old(thread) }),
{
}

/// The head of the robust list is read as it was set, and nothing else changes.
pub proof fn law_robust_list_head_is_read_back<C, S>(thread: &mut Thread<C, S>, value: usize, read: usize)
    requires
        call_ensures(Thread::<C, S>::set_robust_list_head, (thread, value), ()),
        call_ensures(Thread::<C, S>::robust_list_head, (final(thread),), read),
    ensures
        read == value,
        *final(thread) == (Thread { robust_list_head: value, ..*old(thread) }),
{
}

/// The score adjustment is read as it was set, and nothing else changes.
pub proof fn law_oom_score_adj_is_read_back<C, S>(thread: &mut Thread<C, S>, value: i32, read: i32)
    requires
        call_ensures(Thread::<C, S>::set_oom_score_adj, (thread, value), ()),
        call_ensures(Thread::<C, S>::oom_score_adj, (final(thread),), read),
    ensures
        read == value,
        *final(thread) == (Thread { oom_score_adj: value, ..*old(thread) }),
{
}

/// The signal of the death of the parent is read as it was set, and nothing else changes.
pub proof fn law_pdeathsig_is_read_back<C, S>(thread: &mut Thread<C, S>, value: u32, read: u32)
    requires
        call_ensures(Thread::<C, S>::set_pdeathsig, (thread, value), ()),
        call_ensures(Thread::<C, S>::pdeathsig, (final(thread),), read),
    ensures
        read == value,
        *final(thread) == (Thread { pdeathsig: value, ..*old(thread) }),
{
}

/// Whether the user id map has been written is read as it was set, and nothing else changes.
pub proof fn law_uid_map_written_is_read_back<C, S>(thread: &mut Thread<C, S>, value: bool, read: bool)
    requires
        call_ensures(Thread::<C, S>::set_uid_map_written, (thread, value), ()),
        call_ensures(Thread::<C, S>::uid_map_written, (final(thread),), read),
    ensures
        read == value,
        *final(thread) == (Thread { uid_map_written: value, ..*old(thread) }),
{
}

/// Whether the group id map has been written is read as it was set, and nothing else changes.
pub proof fn law_gid_map_written_is_read_back<C, S>(thread: &mut Thread<C, S>, value: bool, read: bool)
    requires
        call_ensures(Thread::<C, S>::set_gid_map_written, (thread, value), ()),
        call_ensures(Thread::<C, S>::gid_map_written, (final(thread),), read),
    ensures
        read == value,
        *final(thread) == (Thread { gid_map_written: value, ..*old(thread) }),
{
}

/// Whether `setgroups` is denied is read as it was set, and nothing else changes.
pub proof fn law_setgroups_deny_is_read_back<C, S>(thread: &mut Thread<C, S>, value: bool, read: bool)
    requires
        call_ensures(Thread::<C, S>::set_setgroups_deny, (thread, value), ()),
        call_ensures(Thread::<C, S>::setgroups_deny, (final(thread),), read),
    ensures
        read == value,
        *final(thread) == (Thread { setgroups_deny: value, ..*old(thread) }),
{
}

/// Whether user memory is being accessed is read as it was set, and nothing else changes.
pub proof fn law_accessing_user_memory_is_read_back<C, S>(thread: &mut Thread<C, S>, value: bool, read: bool)
    requires
        call_ensures(Thread::<C, S>::set_accessing_user_memory, (thread, value), ()),
        call_ensures(Thread::<C, S>::is_accessing_user_memory, (final(thread),), read),
    ensures
        read == value,
        *final(thread) == (Thread { accessing_user_memory: value, ..*old(thread) }),
{
}

/// The filter of a thread is copied from what was set.
pub proof fn law_filter_is_read_back<C, S: Clone>(
    thread: &mut Thread<C, S>,
    state: S,
    read: S,
)
    requires
        call_ensures(Thread::<C, S>::set_seccomp_state, (thread, state), ()),
        call_ensures(Thread::<C, S>::seccomp_state, (final(thread),), read),
    ensures
        cloned(state, read),
        *final(thread) == (Thread { seccomp: state, ..*old(thread) }),
{
}

/// The credentials of one thread are read as they were set.
pub proof fn law_credentials_are_read_back<C, S>(
    thread: &mut Thread<C, S>,
    cred: Arc<C>,
    read: Arc<C>,
)
    requires
        call_ensures(Thread::<C, S>::set_cred_single, (thread, cred), ()),
        call_ensures(Thread::<C, S>::cred, (final(thread),), read),
    ensures
        read == cred,
        *final(thread) == (Thread { cred, ..*old(thread) }),
{
}

} // verus!
