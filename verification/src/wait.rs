//! Waiting for children: `waitpid` and `waitid`.
//!
//! A wait selects children once, when it begins. From then on it looks at
//! them again and again, until one has something to report or the call is
//! interrupted.

use vstd::prelude::*;
use crate::errno::{AxError, AxResult};
use crate::process::{wanted_status, JobControl, JobStatus, ProcessData, TimeValue, NANOS_PER_SEC};
use crate::process_tree::ProcessNode;
use crate::vm::{ax_error_of, vm_write_slice, VmResult};
use crate::vm_io::{lemma_continues_itself, UserMemory, VmAccess, VmIo};
use crate::words::{half_bytes, half_to_bytes, law_half_is_a_number, law_half_round_trip, number_at};

verus! {

/// Return at once if no child has anything to report.
pub const WNOHANG: u32 = 0x1;

/// Report stopped children.
pub const WUNTRACED: u32 = 0x2;

/// Report terminated children.
pub const WEXITED: u32 = 0x4;

/// Report continued children.
pub const WCONTINUED: u32 = 0x8;

/// Leave the child as it is.
pub const WNOWAIT: u32 = 0x0100_0000;

/// Only children that the calling thread created.
pub const WNOTHREAD: u32 = 0x2000_0000;

/// Clone children as well as others.
pub const WALL: u32 = 0x4000_0000;

/// Clone children only.
pub const WCLONE: u32 = 0x8000_0000;

/// The options that `waitpid` knows.
pub const WAITPID_MASK: u32 = 0xe000_000b;

/// The options that `waitid` knows.
pub const WAITID_MASK: u32 = 0xe100_000f;

/// Any child.
pub const P_ALL: u32 = 0;

/// The child with a process id.
pub const P_PID: u32 = 1;

/// The children in a process group.
pub const P_PGID: u32 = 2;

/// The child that a descriptor denotes.
pub const P_PIDFD: u32 = 3;

/// The size of a `siginfo` in user memory.
pub const SIGINFO_SIZE: usize = 128;

/// Options of `waitpid`.
#[derive(Debug, Clone, Copy, PartialEq, Eq, Structural)]
pub struct WaitPidOptions {
    /// The options as bits.
    pub bits: u32,
}

/// Options of `waitid`.
#[derive(Debug, Clone, Copy, PartialEq, Eq, Structural)]
pub struct WaitIdOptions {
    /// The options as bits.
    pub bits: u32,
}

/// All bits of `flag` are set in `bits`.
pub open spec fn has_flag(bits: u32, flag: u32) -> bool {
    bits & flag == flag
}

impl WaitPidOptions {
    /// The options `bits`, unless one of them is unknown.
    pub fn from_bits(bits: u32) -> (r: Option<Self>)
        ensures
            r == (if bits & !WAITPID_MASK == 0 {
                Some(WaitPidOptions { bits })
            } else {
                None
            }),
    {
        if bits & !WAITPID_MASK == 0 {
            Some(WaitPidOptions { bits })
        } else {
            None
        }
    }

    /// Whether the option `flag` is set.
    pub fn contains(&self, flag: u32) -> (r: bool)
        ensures
            r == has_flag(self.bits, flag),
    {
        self.bits & flag == flag
    }
}

impl WaitIdOptions {
    /// The options `bits`, unless one of them is unknown.
    pub fn from_bits(bits: u32) -> (r: Option<Self>)
        ensures
            r == (if bits & !WAITID_MASK == 0 {
                Some(WaitIdOptions { bits })
            } else {
                None
            }),
    {
        if bits & !WAITID_MASK == 0 {
            Some(WaitIdOptions { bits })
        } else {
            None
        }
    }

    /// Whether the option `flag` is set.
    pub fn contains(&self, flag: u32) -> (r: bool)
        ensures
            r == has_flag(self.bits, flag),
    {
        self.bits & flag == flag
    }
}

/// Which children are waited for.
#[derive(Debug, Clone, Copy, PartialEq, Eq, Structural)]
pub enum WaitTarget {
    /// Any child.
    Any,
    /// The child with the process id.
    Pid(u32),
    /// The children in the process group.
    Pgid(u32),
}

impl WaitTarget {
    /// A child with the given ids is waited for.
    pub open spec fn selects(self, pid: u32, pgid: u32) -> bool {
        match self {
            WaitTarget::Any => true,
            WaitTarget::Pid(p) => pid == p,
            WaitTarget::Pgid(g) => pgid == g,
        }
    }

    /// Whether `child` is waited for.
    pub fn matches(&self, child: &ProcessNode) -> (r: bool)
        ensures
            r == self.selects(child.pid, child.pgid),
    {
        match self {
            WaitTarget::Any => true,
            WaitTarget::Pid(pid) => child.pid == *pid,
            WaitTarget::Pgid(pgid) => child.pgid == *pgid,
        }
    }

    /// Whether `child`, or a thread of it, is waited for.
    pub fn matches_process_or_thread(&self, child: &ProcessNode) -> (r: bool)
        ensures
            r == (self.selects(child.pid, child.pgid) || (self matches WaitTarget::Pid(pid)
                && child.threads@.contains(*pid))),
    {
        if self.matches(child) {
            return true;
        }
        match self {
            WaitTarget::Pid(pid) => {
                let mut i: usize = 0;
                while i < child.threads.len()
                    invariant
                        i <= child.threads@.len(),
                        *self == WaitTarget::Pid(*pid),
                        forall|k: int| 0 <= k < i ==> child.threads@[k] != pid,
                    decreases child.threads@.len() - i,
                {
                    if child.threads[i] == *pid {
                        assert(child.threads@[i as int] == *pid);
                        return true;
                    }
                    i = i + 1;
                }
                false
            },
            _ => false,
        }
    }
}

/// What a file descriptor turned out to denote.
#[derive(Debug, Clone, Copy, PartialEq, Eq, Structural)]
pub enum PidFdLookup {
    /// There is no such descriptor, and this is the error.
    Missing(AxError),
    /// A file that denotes no process.
    NotAPidFd,
    /// The process with the id.
    Process(u32),
}

/// The child that the descriptor `fd` denotes, of which `lookup` tells what it
/// is.
pub fn waitid_pidfd_target(fd: i32, lookup: PidFdLookup) -> (r: AxResult<WaitTarget>)
    ensures
        r == pidfd_target(fd, lookup),
{
    if fd < 0 {
        return Err(AxError::InvalidInput);
    }
    match lookup {
        PidFdLookup::Missing(e) => Err(e),
        PidFdLookup::NotAPidFd => Err(AxError::BadFileDescriptor),
        PidFdLookup::Process(pid) => Ok(WaitTarget::Pid(pid)),
    }
}

/// The first of `uids` that is known.
pub open spec fn first_known(uids: Seq<Option<u32>>) -> Option<u32>
    decreases uids.len(),
{
    if uids.len() == 0 {
        None
    } else if uids[0] is Some {
        uids[0]
    } else {
        first_known(uids.skip(1))
    }
}

/// The user id that a child is reported with: the one recorded when it
/// terminated, else that of its first thread that is still known, else root's.
pub fn child_uid(zombie_uid: Option<u32>, thread_uids: &Vec<Option<u32>>) -> (r: u32)
    ensures
        r == match zombie_uid {
            Some(uid) => uid,
            None => match first_known(thread_uids@) {
                Some(uid) => uid,
                None => 0,
            },
        },
{
    if let Some(uid) = zombie_uid {
        return uid;
    }
    let mut i: usize = 0;
    assert(thread_uids@.skip(0) =~= thread_uids@);
    while i < thread_uids.len()
        invariant
            i <= thread_uids@.len(),
            zombie_uid is None,
            first_known(thread_uids@) == first_known(thread_uids@.skip(i as int)),
        decreases thread_uids@.len() - i,
    {
        assert(thread_uids@.skip(i as int).skip(1) =~= thread_uids@.skip(i + 1));
        if let Some(uid) = thread_uids[i] {
            return uid;
        }
        i = i + 1;
    }
    0
}

/// A child as a wait sees it.
#[derive(Debug)]
pub struct Child {
    /// What the process tree holds of it.
    pub node: ProcessNode,
    /// What is shared by its threads, while it lives.
    pub live: Option<LiveChild>,
    /// The thread that created it, as recorded when it terminated.
    pub zombie_wait_parent_tid: Option<u32>,
    /// Whether it is a clone child, as recorded when it terminated.
    pub zombie_clone_child: Option<bool>,
}

/// What a wait reads of the state of a live child.
#[derive(Debug, Clone, Copy, PartialEq, Eq)]
pub struct LiveChild {
    /// The thread that created it.
    pub wait_parent_tid: u32,
    /// Whether it is a clone child.
    pub clone_child: bool,
    /// Its job-control state.
    pub job_control: JobControl,
}

impl Child {
    /// The thread that created the child, if that is known.
    pub open spec fn creator(&self) -> Option<u32> {
        match self.live {
            Some(live) => Some(live.wait_parent_tid),
            None => self.zombie_wait_parent_tid,
        }
    }

    /// Whether the child is a clone child; one of which nothing is known is
    /// not.
    pub open spec fn is_clone(&self) -> bool {
        match self.live {
            Some(live) => live.clone_child,
            None => self.zombie_clone_child == Some(true),
        }
    }
}

/// Which kinds of children are waited for.
#[derive(Debug, Clone, Copy, PartialEq, Eq, Structural)]
pub struct WaitChildFilter {
    /// Children of all kinds.
    pub wall: bool,
    /// Clone children, else the others.
    pub clone: bool,
    /// Only children that the calling thread created.
    pub no_thread: bool,
}

impl WaitChildFilter {
    /// The filter that the given bits ask for.
    pub open spec fn of_bits(bits: u32) -> WaitChildFilter {
        WaitChildFilter {
            wall: has_flag(bits, WALL),
            clone: has_flag(bits, WCLONE),
            no_thread: has_flag(bits, WNOTHREAD),
        }
    }

    /// The filter that the options of a `waitpid` ask for.
    pub fn from_waitpid_options(options: &WaitPidOptions) -> (r: Self)
        ensures
            r == WaitChildFilter::of_bits(options.bits),
    {
        WaitChildFilter {
            wall: options.contains(WALL),
            clone: options.contains(WCLONE),
            no_thread: options.contains(WNOTHREAD),
        }
    }

    /// The filter that the options of a `waitid` ask for.
    pub fn from_waitid_options(options: &WaitIdOptions) -> (r: Self)
        ensures
            r == WaitChildFilter::of_bits(options.bits),
    {
        WaitChildFilter {
            wall: options.contains(WALL),
            clone: options.contains(WCLONE),
            no_thread: options.contains(WNOTHREAD),
        }
    }

    /// Whether children that are clone children, or that are not, are waited
    /// for.
    pub fn matches_clone_kind(&self, is_clone_child: bool) -> (r: bool)
        ensures
            r == (self.wall || is_clone_child == self.clone),
    {
        self.wall || is_clone_child == self.clone
    }

    /// The thread `current_tid` waits for `child`.
    pub open spec fn admits(self, child: &Child, current_tid: u32) -> bool {
        &&& self.no_thread ==> child.creator() == Some(current_tid)
        &&& self.wall || child.is_clone() == self.clone
    }

    /// Whether the thread `current_tid` waits for `child`.
    pub fn matches_process(&self, child: &Child, current_tid: u32) -> (r: bool)
        ensures
            r == self.admits(child, current_tid),
    {
        if self.no_thread {
            let creator = match &child.live {
                Some(live) => Some(live.wait_parent_tid),
                None => child.zombie_wait_parent_tid,
            };
            match creator {
                Some(tid) => {
                    if tid != current_tid {
                        return false;
                    }
                },
                None => {
                    return false;
                },
            }
        }
        let is_clone_child = match &child.live {
            Some(live) => live.clone_child,
            None => match child.zombie_clone_child {
                Some(clone) => clone,
                None => false,
            },
        };
        self.matches_clone_kind(is_clone_child)
    }
}

/// The children among `children` that a wait is for, in order.
pub open spec fn waitable(
    children: Seq<Child>,
    target: WaitTarget,
    current_tid: u32,
    filter: WaitChildFilter,
) -> Seq<Child>
    decreases children.len(),
{
    if children.len() == 0 {
        Seq::empty()
    } else {
        let init = waitable(children.drop_last(), target, current_tid, filter);
        let c = children.last();
        if target.selects(c.node.pid, c.node.pgid) && filter.admits(&c, current_tid) {
            init.push(c)
        } else {
            init
        }
    }
}

/// Keeps the children that a wait is for, in order.
pub fn waitable_processes(
    children: Vec<Child>,
    target: WaitTarget,
    current_tid: u32,
    filter: WaitChildFilter,
) -> (r: Vec<Child>)
    ensures
        r@ == waitable(children@, target, current_tid, filter),
{
    let ghost all = children@;
    let mut candidates: Vec<Child> = Vec::new();
    assert(all.take(0) =~= Seq::<Child>::empty());
    for child in it: children
        invariant
            it.seq() == all,
            candidates@ == waitable(all.take(it.index() as int), target, current_tid, filter),
    {
        proof {
            let t = all.take(it.index() + 1);
            assert(t.drop_last() =~= all.take(it.index() as int));
        }
        if target.matches(&child.node) && filter.matches_process(&child, current_tid) {
            candidates.push(child);
        }
    }
    assert(all.take(all.len() as int) =~= all);
    candidates
}

/// Exactly the children that a wait is for are kept.
pub proof fn law_waitable_are_the_matching_children(
    children: Seq<Child>,
    target: WaitTarget,
    current_tid: u32,
    filter: WaitChildFilter,
    c: Child,
)
    ensures
        waitable(children, target, current_tid, filter).contains(c) <==> (children.contains(c)
            && target.selects(c.node.pid, c.node.pgid) && filter.admits(&c, current_tid)),
    decreases children.len(),
{
    if children.len() > 0 {
        let init = children.drop_last();
        let last = children.last();
        let some = waitable(init, target, current_tid, filter);
        law_waitable_are_the_matching_children(init, target, current_tid, filter, c);
        assert(children =~= init.push(last));
        assert(init.push(last).contains(c) <==> (init.contains(c) || c == last)) by {
            if init.contains(c) {
                let i = choose|i: int| 0 <= i < init.len() && init[i] == c;
                assert(init.push(last)[i] == c);
            }
            assert(init.push(last)[init.len() as int] == last);
        }
        assert(some.push(last).contains(c) <==> (some.contains(c) || c == last)) by {
            if some.contains(c) {
                let i = choose|i: int| 0 <= i < some.len() && some[i] == c;
                assert(some.push(last)[i] == c);
            }
            assert(some.push(last)[some.len() as int] == last);
        }
    }
}

/// Without options, exactly the children that are not clone children are
/// waited for, whichever thread created them; with `WALL` all are.
pub proof fn law_default_wait_is_for_ordinary_children(child: Child, tid: u32)
    ensures
        WaitChildFilter::of_bits(0).admits(&child, tid) == !child.is_clone(),
        WaitChildFilter::of_bits(WALL).admits(&child, tid),
        WaitChildFilter::of_bits(WCLONE).admits(&child, tid) == child.is_clone(),
{
    assert(0u32 & 0x2000_0000 != 0x2000_0000) by (bit_vector);
    assert(0u32 & 0x4000_0000 != 0x4000_0000) by (bit_vector);
    assert(0u32 & 0x8000_0000 != 0x8000_0000) by (bit_vector);
    assert(0x4000_0000u32 & 0x4000_0000 == 0x4000_0000) by (bit_vector);
    assert(0x4000_0000u32 & 0x2000_0000 != 0x2000_0000) by (bit_vector);
    assert(0x8000_0000u32 & 0x4000_0000 != 0x4000_0000) by (bit_vector);
    assert(0x8000_0000u32 & 0x2000_0000 != 0x2000_0000) by (bit_vector);
    assert(0x8000_0000u32 & 0x8000_0000 == 0x8000_0000) by (bit_vector);
}

/// What the `pid` argument of `waitpid` denotes.
pub open spec fn pid_target(pid: i32, own_pgid: u32) -> WaitTarget {
    if pid == -1 {
        WaitTarget::Any
    } else if pid == 0 {
        WaitTarget::Pgid(own_pgid)
    } else if pid > 0 {
        WaitTarget::Pid(pid as u32)
    } else {
        WaitTarget::Pgid(-pid as u32)
    }
}

/// What the descriptor `fd` of a `waitid` denotes.
pub open spec fn pidfd_target(fd: i32, lookup: PidFdLookup) -> AxResult<WaitTarget> {
    if fd < 0 {
        Err(AxError::InvalidInput)
    } else {
        match lookup {
            PidFdLookup::Missing(e) => Err(e),
            PidFdLookup::NotAPidFd => Err(AxError::BadFileDescriptor),
            PidFdLookup::Process(pid) => Ok(WaitTarget::Pid(pid)),
        }
    }
}

/// What the `idtype` and `id` arguments of `waitid` denote.
pub open spec fn id_target(
    idtype: u32,
    id: i32,
    own_pgid: u32,
    pidfd: PidFdLookup,
) -> AxResult<WaitTarget> {
    if idtype == P_ALL {
        Ok(WaitTarget::Any)
    } else if idtype == P_PID && id > 0 {
        Ok(WaitTarget::Pid(id as u32))
    } else if idtype == P_PGID && id == 0 {
        Ok(WaitTarget::Pgid(own_pgid))
    } else if idtype == P_PGID && id > 0 {
        Ok(WaitTarget::Pgid(id as u32))
    } else if idtype == P_PIDFD {
        pidfd_target(id, pidfd)
    } else {
        Err(AxError::InvalidInput)
    }
}

/// Which children the `pid` argument of `waitpid` denotes, for a caller in
/// the group `own_pgid`.
pub fn waitpid_target(pid: i32, own_pgid: u32) -> (r: WaitTarget)
    requires
        pid > i32::MIN,
    ensures
        r == pid_target(pid, own_pgid),
{
    if pid == -1 {
        WaitTarget::Any
    } else if pid == 0 {
        WaitTarget::Pgid(own_pgid)
    } else if pid > 0 {
        WaitTarget::Pid(pid as u32)
    } else {
        WaitTarget::Pgid(-pid as u32)
    }
}

/// Which children the `idtype` and `id` arguments of `waitid` denote, for a
/// caller in the group `own_pgid`; `pidfd` tells what the descriptor `id` is.
pub fn waitid_target(idtype: u32, id: i32, own_pgid: u32, pidfd: PidFdLookup) -> (r: AxResult<
    WaitTarget,
>)
    ensures
        r == id_target(idtype, id, own_pgid, pidfd),
{
    if idtype == P_ALL {
        Ok(WaitTarget::Any)
    } else if idtype == P_PID {
        if id <= 0 {
            return Err(AxError::InvalidInput);
        }
        Ok(WaitTarget::Pid(id as u32))
    } else if idtype == P_PGID {
        if id < 0 {
            return Err(AxError::InvalidInput);
        }
        let pgid: u32 = if id == 0 {
            own_pgid
        } else {
            id as u32
        };
        Ok(WaitTarget::Pgid(pgid))
    } else if idtype == P_PIDFD {
        waitid_pidfd_target(id, pidfd)
    } else {
        Err(AxError::InvalidInput)
    }
}

/// A `waitpid` in progress.
#[derive(Debug)]
pub struct WaitPid {
    /// The children waited for, to be brought up to date before each look.
    pub children: Vec<Child>,
    /// The options.
    pub options: WaitPidOptions,
}

/// A `waitid` in progress.
#[derive(Debug)]
pub struct WaitId {
    /// The children waited for, to be brought up to date before each look.
    pub children: Vec<Child>,
    /// The options.
    pub options: WaitIdOptions,
}

/// Begins a `waitpid` of the thread `current_tid`, which belongs to the group
/// `own_pgid` and whose process has the children `children`.
pub fn sys_waitpid(
    pid: i32,
    options: u32,
    own_pgid: u32,
    current_tid: u32,
    children: Vec<Child>,
) -> (r: AxResult<WaitPid>)
    requires
        options & !WAITPID_MASK == 0 ==> pid > i32::MIN,
    ensures
        ({
            let selected = waitable(
                children@,
                pid_target(pid, own_pgid),
                current_tid,
                WaitChildFilter::of_bits(options),
            );
            if options & !WAITPID_MASK != 0 {
                r == Err::<WaitPid, AxError>(AxError::InvalidInput)
            } else if selected.len() == 0 {
                r == Err::<WaitPid, AxError>(AxError::NoChild)
            } else {
                r matches Ok(w) && w.children@ == selected && w.options.bits == options
            }
        }),
{
    let options = match WaitPidOptions::from_bits(options) {
        Some(options) => options,
        None => {
            return Err(AxError::InvalidInput);
        },
    };
    let target = waitpid_target(pid, own_pgid);
    let filter = WaitChildFilter::from_waitpid_options(&options);
    let children = waitable_processes(children, target, current_tid, filter);
    if children.len() == 0 {
        return Err(AxError::NoChild);
    }
    Ok(WaitPid { children, options })
}

/// Begins a `waitid` of the thread `current_tid`, which belongs to the group
/// `own_pgid` and whose process has the children `children`; `pidfd` tells
/// what the descriptor `id` is.
pub fn sys_waitid(
    idtype: u32,
    id: i32,
    options: u32,
    own_pgid: u32,
    current_tid: u32,
    pidfd: PidFdLookup,
    children: Vec<Child>,
) -> (r: AxResult<WaitId>)
    ensures
        ({
            match id_target(idtype, id, own_pgid, pidfd) {
                Err(e) => r == Err::<WaitId, AxError>(e),
                Ok(t) => {
                    let selected = waitable(
                        children@,
                        t,
                        current_tid,
                        WaitChildFilter::of_bits(options),
                    );
                    if options & !WAITID_MASK != 0 || !(has_flag(options, WEXITED) || has_flag(
                        options,
                        WUNTRACED,
                    ) || has_flag(options, WCONTINUED)) {
                        r == Err::<WaitId, AxError>(AxError::InvalidInput)
                    } else if selected.len() == 0 {
                        r == Err::<WaitId, AxError>(AxError::NoChild)
                    } else {
                        r matches Ok(w) && w.children@ == selected && w.options.bits == options
                    }
                },
            }
        }),
{
    let target = match waitid_target(idtype, id, own_pgid, pidfd) {
        Ok(target) => target,
        Err(e) => {
            return Err(e);
        },
    };
    let options = match WaitIdOptions::from_bits(options) {
        Some(options) => options,
        None => {
            return Err(AxError::InvalidInput);
        },
    };
    if !(options.contains(WEXITED) || options.contains(WUNTRACED) || options.contains(WCONTINUED)) {
        return Err(AxError::InvalidInput);
    }
    let filter = WaitChildFilter::from_waitid_options(&options);
    let children = waitable_processes(children, target, current_tid, filter);
    if children.len() == 0 {
        return Err(AxError::NoChild);
    }
    Ok(WaitId { children, options })
}

/// What a look at the children of a `waitpid` brought.
#[derive(Debug, Clone, Copy, PartialEq, Eq, Structural)]
pub enum WaitEvent {
    /// The child number `index` has terminated and has been reported; it is to
    /// be removed everywhere.
    Reaped { index: usize },
    /// The child number `index` has reported that it stopped or continued;
    /// the report is to be consumed.
    Reported { index: usize },
    /// Nothing, and the caller does not want to wait.
    Nothing,
}

/// What a look at the children of a `waitid` brought.
#[derive(Debug, Clone, Copy, PartialEq, Eq, Structural)]
pub enum WaitIdEvent {
    /// The child number `index` has terminated and has been described; it is to
    /// be removed everywhere.
    Reaped { index: usize },
    /// The child number `index` has terminated and has been described; it is to
    /// be left as it is.
    Kept { index: usize },
    /// Nothing, and the caller does not want to wait.
    Nothing,
}

/// Child `i` is the first that has terminated.
pub open spec fn first_zombie(children: Seq<Child>, i: int) -> bool {
    &&& 0 <= i < children.len()
    &&& children[i].node.zombie
    &&& forall|k: int| 0 <= k < i ==> !(#[trigger] children[k]).node.zombie
}

/// The first child that has terminated.
pub open spec fn zombie_index(children: Seq<Child>) -> int {
    choose|i: int| first_zombie(children, i)
}

/// No child has terminated.
pub open spec fn no_zombie(children: Seq<Child>) -> bool {
    forall|k: int| 0 <= k < children.len() ==> !(#[trigger] children[k]).node.zombie
}

/// What a live child has to report of the wanted kinds.
pub open spec fn job_report(
    child: Child,
    want_stopped: bool,
    want_continued: bool,
) -> Option<JobStatus> {
    match child.live {
        Some(live) => wanted_status(live.job_control.status, want_stopped, want_continued),
        None => None,
    }
}

/// Child `i` is the first that reports something of the wanted kinds.
pub open spec fn first_report(
    children: Seq<Child>,
    want_stopped: bool,
    want_continued: bool,
    i: int,
) -> bool {
    &&& 0 <= i < children.len()
    &&& job_report(children[i], want_stopped, want_continued) is Some
    &&& forall|k: int|
        0 <= k < i ==> job_report(#[trigger] children[k], want_stopped, want_continued) is None
}

/// The first child that reports something of the wanted kinds.
pub open spec fn report_index(
    children: Seq<Child>,
    want_stopped: bool,
    want_continued: bool,
) -> int {
    choose|i: int| first_report(children, want_stopped, want_continued, i)
}

/// No child reports anything of the wanted kinds.
pub open spec fn no_report(
    children: Seq<Child>,
    want_stopped: bool,
    want_continued: bool,
) -> bool {
    forall|k: int|
        0 <= k < children.len() ==> job_report(
            #[trigger] children[k],
            want_stopped,
            want_continued,
        ) is None
}

/// The wait status that a report is encoded as.
pub open spec fn raw_status(status: JobStatus) -> i32 {
    match status {
        JobStatus::Stopped(signo) => (signo.number * 256 + 0x7f) as i32,
        JobStatus::Continued => 0xffff,
    }
}

/// The wait status that a report is encoded as.
pub fn encode_job_status(status: JobStatus) -> (r: i32)
    ensures
        r == raw_status(status),
{
    match status {
        JobStatus::Stopped(signo) => {
            let high: i32 = (signo.number as i32) << 8;
            let number: u8 = signo.number;
            assert((((number as i32) << 8) | 0x7f) == number * 256 + 0x7f) by (bit_vector);
            high | 0x7f
        },
        JobStatus::Continued => 0xffff,
    }
}

/// What came of publishing something at `addr` by the accesses `done`.
pub open spec fn publish_result(addr: usize, done: Seq<VmAccess>) -> VmResult<()> {
    if addr == 0 {
        Ok(())
    } else {
        done[0]->result
    }
}

/// `data` was published at `addr` by the accesses `done`: there is none if
/// the address is null.
pub open spec fn published(addr: usize, data: Seq<u8>, done: Seq<VmAccess>) -> bool {
    done == (if addr == 0 {
        Seq::<VmAccess>::empty()
    } else {
        seq![VmAccess::Write { start: addr, data, result: publish_result(addr, done) }]
    })
}

/// Stores `data` at `addr`, unless that is null.
fn publish<V: VmIo>(vm: &mut UserMemory<V>, addr: usize, data: &Vec<u8>) -> (r: VmResult<()>)
    ensures
        final(vm).continues(*old(vm)),
        ({
            let done = final(vm).accesses().skip(old(vm).accesses().len() as int);
            published(addr, data@, done) && r == publish_result(addr, done)
        }),
{
    let ghost before = vm.accesses();
    if addr == 0 {
        proof {
            lemma_continues_itself(*vm);
        }
        assert(vm.accesses().skip(before.len() as int) =~= Seq::<VmAccess>::empty());
        return Ok(());
    }
    let r = vm_write_slice(vm, addr, data.as_slice());
    assert(vm.accesses().skip(before.len() as int) =~= seq![
        VmAccess::Write { start: addr, data: data@, result: r },
    ]);
    r
}

/// The number of the first child that has terminated.
fn find_zombie(children: &Vec<Child>) -> (r: Option<usize>)
    ensures
        match r {
            Some(i) => first_zombie(children@, i as int),
            None => no_zombie(children@),
        },
{
    let mut i: usize = 0;
    while i < children.len()
        invariant
            i <= children@.len(),
            forall|k: int| 0 <= k < i ==> !(#[trigger] children@[k]).node.zombie,
        decreases children@.len() - i,
    {
        if children[i].node.zombie {
            return Some(i);
        }
        i = i + 1;
    }
    None
}

/// The number of the first child that reports something of the wanted kinds,
/// and what that is.
fn find_report(children: &Vec<Child>, want_stopped: bool, want_continued: bool) -> (r: Option<
    (usize, JobStatus),
>)
    ensures
        match r {
            Some((i, status)) => first_report(children@, want_stopped, want_continued, i as int)
                && job_report(children@[i as int], want_stopped, want_continued) == Some(status),
            None => no_report(children@, want_stopped, want_continued),
        },
{
    let mut i: usize = 0;
    while i < children.len()
        invariant
            i <= children@.len(),
            forall|k: int|
                0 <= k < i ==> job_report(
                    #[trigger] children@[k],
                    want_stopped,
                    want_continued,
                ) is None,
        decreases children@.len() - i,
    {
        if let Some(live) = &children[i].live {
            match live.job_control.status {
                Some(JobStatus::Stopped(signo)) => {
                    if want_stopped {
                        return Some((i, JobStatus::Stopped(signo)));
                    }
                },
                Some(JobStatus::Continued) => {
                    if want_continued {
                        return Some((i, JobStatus::Continued));
                    }
                },
                None => {},
            }
        }
        i = i + 1;
    }
    None
}

/// There is only one first child that has terminated.
pub proof fn lemma_zombie_index(children: Seq<Child>, i: int)
    requires
        first_zombie(children, i),
    ensures
        !no_zombie(children),
        zombie_index(children) == i,
{
    let j = zombie_index(children);
    assert(first_zombie(children, j));
    if i < j {
        assert(!children[i].node.zombie);
    } else if j < i {
        assert(!children[j].node.zombie);
    }
}

/// There is only one first child that reports something.
pub proof fn lemma_report_index(
    children: Seq<Child>,
    want_stopped: bool,
    want_continued: bool,
    i: int,
)
    requires
        first_report(children, want_stopped, want_continued, i),
    ensures
        !no_report(children, want_stopped, want_continued),
        report_index(children, want_stopped, want_continued) == i,
{
    let j = report_index(children, want_stopped, want_continued);
    assert(first_report(children, want_stopped, want_continued, j));
    if i < j {
        assert(job_report(children[i], want_stopped, want_continued) is None);
    } else if j < i {
        assert(job_report(children[j], want_stopped, want_continued) is None);
    }
}

/// The user times, or the system times, of `times` in nanoseconds.
pub open spec fn all_nanos(times: Seq<(TimeValue, TimeValue)>, system: bool) -> int
    decreases times.len(),
{
    if times.len() == 0 {
        0
    } else {
        let last = if system {
            times.last().1
        } else {
            times.last().0
        };
        all_nanos(times.drop_last(), system) + last.total_nanos()
    }
}

/// The longest span in nanoseconds.
pub open spec fn max_nanos() -> int {
    u64::MAX * NANOS_PER_SEC + NANOS_PER_SEC - 1
}

/// The times are proper, and so is what they add up to with those that `data`
/// holds.
pub open spec fn addable<A, W>(
    data: ProcessData<A, W>,
    times: Seq<(TimeValue, TimeValue)>,
) -> bool {
    &&& data.children_cpu_time.0.wf()
    &&& data.children_cpu_time.1.wf()
    &&& forall|i: int|
        0 <= i < times.len() ==> (#[trigger] times[i]).0.wf() && times[i].1.wf()
    &&& data.children_cpu_time.0.total_nanos() + all_nanos(times, false) <= max_nanos()
    &&& data.children_cpu_time.1.total_nanos() + all_nanos(times, true) <= max_nanos()
}

/// `after` is `before` with the times added to those of the children.
pub open spec fn times_added<A, W>(
    before: ProcessData<A, W>,
    after: ProcessData<A, W>,
    times: Seq<(TimeValue, TimeValue)>,
) -> bool {
    let old_times = before.children_cpu_time;
    let new_times = after.children_cpu_time;
    &&& new_times.0.wf()
    &&& new_times.1.wf()
    &&& new_times.0.total_nanos() == old_times.0.total_nanos() + all_nanos(times, false)
    &&& new_times.1.total_nanos() == old_times.1.total_nanos() + all_nanos(times, true)
    &&& after == (ProcessData { children_cpu_time: new_times, ..before })
}

/// Fewer times are not longer.
proof fn lemma_nanos_mono(times: Seq<(TimeValue, TimeValue)>, i: int, system: bool)
    requires
        0 <= i <= times.len(),
    ensures
        all_nanos(times.take(i), system) <= all_nanos(times, system),
    decreases times.len() - i,
{
    if i < times.len() {
        assert(times.take(i + 1).drop_last() =~= times.take(i));
        lemma_nanos_mono(times, i + 1, system);
    } else {
        assert(times.take(i) =~= times);
    }
}

/// Whether the times are proper, and so is what they add up to with those that
/// `data` holds.
pub fn is_addable<A, W>(data: &ProcessData<A, W>, times: &Vec<(TimeValue, TimeValue)>) -> (r: bool)
    ensures
        r == addable(*data, times@),
{
    let (mut user, mut system) = data.children_cpu_time;
    if user.nanos >= NANOS_PER_SEC || system.nanos >= NANOS_PER_SEC {
        return false;
    }
    let mut i: usize = 0;
    assert(times@.take(0) =~= Seq::<(TimeValue, TimeValue)>::empty());
    while i < times.len()
        invariant
            i <= times@.len(),
            data.children_cpu_time.0.wf(),
            data.children_cpu_time.1.wf(),
            user.wf(),
            system.wf(),
            forall|k: int| 0 <= k < i ==> (#[trigger] times@[k]).0.wf() && times@[k].1.wf(),
            user.total_nanos() == data.children_cpu_time.0.total_nanos() + all_nanos(
                times@.take(i as int),
                false,
            ),
            system.total_nanos() == data.children_cpu_time.1.total_nanos() + all_nanos(
                times@.take(i as int),
                true,
            ),
        decreases times@.len() - i,
    {
        let (utime, stime) = times[i];
        assert(times@[i as int] == (utime, stime));
        if utime.nanos >= NANOS_PER_SEC || stime.nanos >= NANOS_PER_SEC {
            return false;
        }
        proof {
            assert(times@.take(i + 1).drop_last() =~= times@.take(i as int));
            lemma_nanos_mono(times@, i + 1, false);
            lemma_nanos_mono(times@, i + 1, true);
        }
        if !user.is_addable(utime) || !system.is_addable(stime) {
            return false;
        }
        user = user.plus(utime);
        system = system.plus(stime);
        i = i + 1;
    }
    assert(times@.take(i as int) =~= times@);
    true
}

/// Adds the times of the threads of a child that is reaped.
fn add_times<A, W>(data: &mut ProcessData<A, W>, times: &Vec<(TimeValue, TimeValue)>)
    requires
        addable(*old(data), times@),
    ensures
        times_added(*old(data), *final(data), times@),
{
    let ghost before = *data;
    let mut i: usize = 0;
    assert(times@.take(0) =~= Seq::<(TimeValue, TimeValue)>::empty());
    while i < times.len()
        invariant
            i <= times@.len(),
            addable(before, times@),
            times_added(before, *data, times@.take(i as int)),
        decreases times@.len() - i,
    {
        let (utime, stime) = times[i];
        proof {
            assert(times@[i as int].0.wf() && times@[i as int].1.wf());
            assert(times@.take(i + 1).drop_last() =~= times@.take(i as int));
            lemma_nanos_mono(times@, i + 1, false);
            lemma_nanos_mono(times@, i + 1, true);
        }
        data.add_child_cpu_time(utime, stime);
        i = i + 1;
    }
    assert(times@.take(i as int) =~= times@);
}

/// What publishing the status of a child, as told by `r`, makes of `event`.
pub open spec fn event_or_error<E>(r: VmResult<()>, event: E) -> AxResult<Option<E>> {
    match r {
        Ok(_) => Ok(Some(event)),
        Err(e) => Err(ax_error_of(e)),
    }
}

impl WaitPid {
    /// The call wants to know of stopped children.
    pub open spec fn wants_stopped(&self) -> bool {
        has_flag(self.options.bits, WUNTRACED)
    }

    /// The call wants to know of continued children.
    pub open spec fn wants_continued(&self) -> bool {
        has_flag(self.options.bits, WCONTINUED)
    }

    /// What a look at the children brings, when it made the accesses `done`.
    ///
    /// A child that has terminated comes before one that has stopped or
    /// continued; among each, the first one counts. Its status is published
    /// before anything is made of it: when that fails the child stays as it
    /// is, to be waited for again.
    pub open spec fn outcome(
        &self,
        exit_code: usize,
        done: Seq<VmAccess>,
        r: AxResult<Option<WaitEvent>>,
    ) -> bool {
        let c = self.children@;
        let stopped = self.wants_stopped();
        let continued = self.wants_continued();
        let w = publish_result(exit_code, done);
        if !no_zombie(c) {
            let i = zombie_index(c);
            &&& published(exit_code, half_bytes(c[i].node.exit_code as u32), done)
            &&& r == event_or_error(w, WaitEvent::Reaped { index: i as usize })
        } else if !no_report(c, stopped, continued) {
            let i = report_index(c, stopped, continued);
            let raw = raw_status(job_report(c[i], stopped, continued)->0);
            &&& published(exit_code, half_bytes(raw as u32), done)
            &&& r == event_or_error(w, WaitEvent::Reported { index: i as usize })
        } else {
            &&& done == Seq::<VmAccess>::empty()
            &&& r == Ok::<Option<WaitEvent>, AxError>(
                if has_flag(self.options.bits, WNOHANG) {
                    Some(WaitEvent::Nothing)
                } else {
                    None
                },
            )
        }
    }

    /// The child that is reaped, if one is: the first that has terminated.
    pub fn exited_child(&self) -> (r: Option<usize>)
        ensures
            r == (if no_zombie(self.children@) {
                None
            } else {
                Some(zombie_index(self.children@) as usize)
            }),
            r matches Some(i) ==> first_zombie(self.children@, i as int),
    {
        let found = find_zombie(&self.children);
        proof {
            if let Some(index) = found {
                lemma_zombie_index(self.children@, index as int);
            }
        }
        found
    }

    /// Looks at the children and publishes the status of the one that has
    /// something to report at `exit_code`, unless that is null. `None` when
    /// the caller has to wait.
    ///
    /// `data` is that of the caller, and `times` are the user and system times
    /// of the threads of the child [`WaitPid::exited_child`]. They are added
    /// to those of the children when it is reaped.
    pub fn check_children<A, W, V: VmIo>(
        &self,
        vm: &mut UserMemory<V>,
        exit_code: usize,
        data: &mut ProcessData<A, W>,
        times: &Vec<(TimeValue, TimeValue)>,
    ) -> (r: AxResult<Option<WaitEvent>>)
        requires
            !no_zombie(self.children@) ==> addable(*old(data), times@),
        ensures
            final(vm).continues(*old(vm)),
            self.outcome(
                exit_code,
                final(vm).accesses().skip(old(vm).accesses().len() as int),
                r,
            ),
            if r matches Ok(Some(WaitEvent::Reaped { .. })) {
                times_added(*old(data), *final(data), times@)
            } else {
                *final(data) == *old(data)
            },
    {
        let ghost before = vm.accesses();
        if let Some(index) = self.exited_child() {
            proof {
                lemma_zombie_index(self.children@, index as int);
            }
            let status = half_to_bytes(self.children[index].node.exit_code as u32);
            let w = publish(vm, exit_code, &status);
            return match w {
                Ok(_) => {
                    add_times(data, times);
                    Ok(Some(WaitEvent::Reaped { index }))
                },
                Err(e) => Err(AxError::from(e)),
            };
        }
        let want_stopped = self.options.contains(WUNTRACED);
        let want_continued = self.options.contains(WCONTINUED);
        if want_stopped || want_continued {
            if let Some((index, status)) = find_report(&self.children, want_stopped, want_continued) {
                proof {
                    lemma_report_index(
                        self.children@,
                        want_stopped,
                        want_continued,
                        index as int,
                    );
                }
                let raw = half_to_bytes(encode_job_status(status) as u32);
                let w = publish(vm, exit_code, &raw);
                return match w {
                    Ok(_) => Ok(Some(WaitEvent::Reported { index })),
                    Err(e) => Err(AxError::from(e)),
                };
            }
        }
        proof {
            lemma_continues_itself(*vm);
        }
        assert(vm.accesses().skip(before.len() as int) =~= Seq::<VmAccess>::empty());
        if self.options.contains(WNOHANG) {
            Ok(Some(WaitEvent::Nothing))
        } else {
            Ok(None)
        }
    }
}

impl WaitId {
    /// The child that the call reports: the first that has terminated, if the
    /// call is for such children.
    pub fn exited_child(&self) -> (r: Option<usize>)
        ensures
            r == (if has_flag(self.options.bits, WEXITED) && !no_zombie(self.children@) {
                Some(zombie_index(self.children@) as usize)
            } else {
                None
            }),
            r matches Some(i) ==> first_zombie(self.children@, i as int),
    {
        if !self.options.contains(WEXITED) {
            return None;
        }
        let found = find_zombie(&self.children);
        proof {
            if let Some(index) = found {
                lemma_zombie_index(self.children@, index as int);
            }
        }
        found
    }

    /// What a look at the children brings, when it made the accesses `done`
    /// and `siginfo` describes the child to be reported.
    ///
    /// The child is described in user memory before it is reaped, and with
    /// `WNOWAIT` it is not reaped at all. When there is none and the caller
    /// does not want to wait, it is given an empty description.
    pub open spec fn outcome(
        &self,
        infop: usize,
        siginfo: Seq<u8>,
        done: Seq<VmAccess>,
        r: AxResult<Option<WaitIdEvent>>,
    ) -> bool {
        let c = self.children@;
        let w = publish_result(infop, done);
        if has_flag(self.options.bits, WEXITED) && !no_zombie(c) {
            &&& published(infop, siginfo, done)
            &&& r == event_or_error(
                w,
                if has_flag(self.options.bits, WNOWAIT) {
                    WaitIdEvent::Kept { index: zombie_index(c) as usize }
                } else {
                    WaitIdEvent::Reaped { index: zombie_index(c) as usize }
                },
            )
        } else if has_flag(self.options.bits, WNOHANG) {
            &&& published(infop, Seq::new(SIGINFO_SIZE as nat, |i: int| 0u8), done)
            &&& r == event_or_error(w, WaitIdEvent::Nothing)
        } else {
            &&& done == Seq::<VmAccess>::empty()
            &&& r == Ok::<Option<WaitIdEvent>, AxError>(None)
        }
    }

    /// Looks at the children and describes the one that has terminated at
    /// `infop`, unless that is null; `siginfo` is the description of the
    /// child [`WaitId::exited_child`]. `None` when the caller has to wait.
    ///
    /// `data` is that of the caller, and `times` are the user and system times
    /// of the threads of that child. They are added to those of the children
    /// when it is reaped.
    pub fn check_children<A, W, V: VmIo>(
        &self,
        vm: &mut UserMemory<V>,
        infop: usize,
        siginfo: &Vec<u8>,
        data: &mut ProcessData<A, W>,
        times: &Vec<(TimeValue, TimeValue)>,
    ) -> (r: AxResult<Option<WaitIdEvent>>)
        requires
            siginfo@.len() == SIGINFO_SIZE,
            has_flag(self.options.bits, WEXITED) && !has_flag(self.options.bits, WNOWAIT)
                && !no_zombie(self.children@) ==> addable(*old(data), times@),
        ensures
            final(vm).continues(*old(vm)),
            self.outcome(
                infop,
                siginfo@,
                final(vm).accesses().skip(old(vm).accesses().len() as int),
                r,
            ),
            if r matches Ok(Some(WaitIdEvent::Reaped { .. })) {
                times_added(*old(data), *final(data), times@)
            } else {
                *final(data) == *old(data)
            },
    {
        let ghost before = vm.accesses();
        if let Some(index) = self.exited_child() {
            let w = publish(vm, infop, siginfo);
            return match w {
                Ok(_) => {
                    if self.options.contains(WNOWAIT) {
                        Ok(Some(WaitIdEvent::Kept { index }))
                    } else {
                        add_times(data, times);
                        Ok(Some(WaitIdEvent::Reaped { index }))
                    }
                },
                Err(e) => Err(AxError::from(e)),
            };
        }
        if self.options.contains(WNOHANG) {
            let zeroed: Vec<u8> = vec![0u8; SIGINFO_SIZE];
            assert(zeroed@ =~= Seq::new(SIGINFO_SIZE as nat, |i: int| 0u8));
            let w = publish(vm, infop, &zeroed);
            return match w {
                Ok(_) => Ok(Some(WaitIdEvent::Nothing)),
                Err(e) => Err(AxError::from(e)),
            };
        }
        proof {
            lemma_continues_itself(*vm);
        }
        assert(vm.accesses().skip(before.len() as int) =~= Seq::<VmAccess>::empty());
        Ok(None)
    }
}

/// What `waitpid` returns for an event: the id of the child, or zero.
pub fn waitpid_value(wait: &WaitPid, event: WaitEvent) -> (r: isize)
    requires
        match event {
            WaitEvent::Reaped { index } | WaitEvent::Reported { index } => index
                < wait.children@.len(),
            WaitEvent::Nothing => true,
        },
    ensures
        r == match event {
            WaitEvent::Reaped { index } | WaitEvent::Reported { index } => wait.children@[index as int].node.pid as isize,
            WaitEvent::Nothing => 0,
        },
{
    match event {
        WaitEvent::Reaped { index } => wait.children[index].node.pid as isize,
        WaitEvent::Reported { index } => wait.children[index].node.pid as isize,
        WaitEvent::Nothing => 0,
    }
}

/// How a waiting call goes on.
#[derive(Debug, Clone, Copy, PartialEq, Eq, Structural)]
pub enum PollStep {
    /// Register to be woken when a child changes, and look again.
    Register,
    /// Sleep until woken.
    Sleep,
    /// Stop waiting: the look brought something, or failed.
    Finish,
}

/// How a waiting call goes on after a look at its children, which it has
/// registered to be woken for, or not yet.
///
/// It sleeps only after a look that it made once registered, so a child that
/// changes between the first look and the registration is not missed.
pub fn wait_poll<E>(checked: &AxResult<Option<E>>, registered: bool) -> (r: PollStep)
    ensures
        r == (match checked {
            Ok(None) => if registered {
                PollStep::Sleep
            } else {
                PollStep::Register
            },
            _ => PollStep::Finish,
        }),
{
    match checked {
        Ok(None) => if registered {
            PollStep::Sleep
        } else {
            PollStep::Register
        },
        _ => PollStep::Finish,
    }
}

/// When the status of a child cannot be published, nothing is made of the
/// child: it can be waited for again.
pub proof fn law_failed_publication_leaves_the_child(
    wait: WaitPid,
    exit_code: usize,
    done: Seq<VmAccess>,
    r: AxResult<Option<WaitEvent>>,
)
    requires
        wait.outcome(exit_code, done, r),
        exists|k: int| 0 <= k < done.len() && ((#[trigger] done[k])->result) is Err,
    ensures
        r is Err,
{
    assert(done.len() == 1);
}

/// A wait reaps only a child that has terminated, and takes a report only
/// from a live child that has one.
pub proof fn law_only_what_happened_is_reported(
    wait: WaitPid,
    exit_code: usize,
    done: Seq<VmAccess>,
    event: WaitEvent,
)
    requires
        wait.outcome(exit_code, done, Ok(Some(event))),
        wait.children@.len() <= usize::MAX,
    ensures
        event matches WaitEvent::Reaped { index } ==> index < wait.children@.len()
            && wait.children@[index as int].node.zombie,
        event matches WaitEvent::Reported { index } ==> index < wait.children@.len() && job_report(
            wait.children@[index as int],
            wait.wants_stopped(),
            wait.wants_continued(),
        ) is Some,
{
    let c = wait.children@;
    if !no_zombie(c) {
        lemma_some_zombie(c, c.len() as int);
    } else if !no_report(c, wait.wants_stopped(), wait.wants_continued()) {
        lemma_some_report(c, wait.wants_stopped(), wait.wants_continued(), c.len() as int);
    }
}

/// If a child among the first `n` has terminated, one is the first.
proof fn lemma_some_zombie(c: Seq<Child>, n: int)
    requires
        0 <= n <= c.len(),
        exists|k: int| 0 <= k < n && (#[trigger] c[k]).node.zombie,
    ensures
        first_zombie(c, zombie_index(c)),
    decreases n,
{
    if exists|k: int| 0 <= k < n - 1 && (#[trigger] c[k]).node.zombie {
        lemma_some_zombie(c, n - 1);
    } else {
        assert(first_zombie(c, n - 1));
    }
}

/// If a child among the first `n` reports something, one is the first.
proof fn lemma_some_report(c: Seq<Child>, stopped: bool, continued: bool, n: int)
    requires
        0 <= n <= c.len(),
        exists|k: int| 0 <= k < n && job_report(#[trigger] c[k], stopped, continued) is Some,
    ensures
        first_report(c, stopped, continued, report_index(c, stopped, continued)),
    decreases n,
{
    if exists|k: int| 0 <= k < n - 1 && job_report(#[trigger] c[k], stopped, continued) is Some {
        lemma_some_report(c, stopped, continued, n - 1);
    } else {
        assert(first_report(c, stopped, continued, n - 1));
    }
}

/// An option is set, by the number of its bit.
pub open spec fn opted(bits: u32, bit: u32) -> bool {
    bits & (1u32 << bit) != 0
}

/// An option is set when its bit is, and the known options are these bits.
proof fn lemma_option_bits(bits: u32)
    ensures
        has_flag(bits, WNOHANG) <==> opted(bits, 0),
        has_flag(bits, WUNTRACED) <==> opted(bits, 1),
        has_flag(bits, WEXITED) <==> opted(bits, 2),
        has_flag(bits, WCONTINUED) <==> opted(bits, 3),
        has_flag(bits, WNOWAIT) <==> opted(bits, 24),
        has_flag(bits, WNOTHREAD) <==> opted(bits, 29),
        has_flag(bits, WALL) <==> opted(bits, 30),
        has_flag(bits, WCLONE) <==> opted(bits, 31),
        bits & !WAITPID_MASK == 0 <==> bits / 16 % 0x200_0000 == 0 && !opted(bits, 2),
        bits & !WAITID_MASK == 0 <==> bits / 16 % 0x10_0000 == 0 && bits / 0x200_0000 % 16 == 0,
{
    assert({
        &&& (bits & 0x1 == 0x1 <==> bits & (1u32 << 0) != 0)
        &&& (bits & 0x2 == 0x2 <==> bits & (1u32 << 1) != 0)
        &&& (bits & 0x4 == 0x4 <==> bits & (1u32 << 2) != 0)
        &&& (bits & 0x8 == 0x8 <==> bits & (1u32 << 3) != 0)
        &&& (bits & 0x0100_0000 == 0x0100_0000 <==> bits & (1u32 << 24) != 0)
        &&& (bits & 0x2000_0000 == 0x2000_0000 <==> bits & (1u32 << 29) != 0)
        &&& (bits & 0x4000_0000 == 0x4000_0000 <==> bits & (1u32 << 30) != 0)
        &&& (bits & 0x8000_0000 == 0x8000_0000 <==> bits & (1u32 << 31) != 0)
        &&& (bits & !0xe000_000bu32 == 0 <==> bits / 16 % 0x200_0000 == 0 && bits & (1u32 << 2)
            == 0)
        &&& (bits & !0xe100_000fu32 == 0 <==> bits / 16 % 0x10_0000 == 0 && bits / 0x200_0000 % 16
            == 0)
    }) by (bit_vector);
}

/// A wait with these options is for a child of this kind: with bit 29 only for
/// those that the thread itself created, with bit 30 for all kinds, and else
/// for clone children with bit 31 and for ordinary ones without it. What a child
/// is, its process says while it lives, and a record afterwards.
pub open spec fn kind_is_waited_for(bits: u32, c: Child, tid: u32) -> bool {
    let clone = if c.live is Some {
        c.live->0.clone_child
    } else {
        c.zombie_clone_child == Some(true)
    };
    let mine = if c.live is Some {
        c.live->0.wait_parent_tid == tid
    } else {
        c.zombie_wait_parent_tid == Some(tid)
    };
    &&& opted(bits, 29) ==> mine
    &&& opted(bits, 30) || (opted(bits, 31) <==> clone)
}

/// The argument of `waitpid` denotes a child: minus one any, a positive number
/// the child with that id, zero those in the group of the caller, and any other
/// number those in the group with its absolute value.
pub open spec fn pid_denotes(pid: i32, own_pgid: u32, c: Child) -> bool {
    ||| pid == -1
    ||| pid > 0 && c.node.pid == pid
    ||| pid == 0 && c.node.pgid == own_pgid
    ||| pid < -1 && c.node.pgid == -pid
}

/// The arguments of `waitid` denote a child.
pub open spec fn id_denotes(
    idtype: u32,
    id: i32,
    own_pgid: u32,
    pidfd: PidFdLookup,
    c: Child,
) -> bool {
    ||| idtype == 0
    ||| idtype == 1 && c.node.pid == id
    ||| idtype == 2 && id != 0 && c.node.pgid == id
    ||| idtype == 2 && id == 0 && c.node.pgid == own_pgid
    ||| idtype == 3 && pidfd == PidFdLookup::Process(c.node.pid)
}

/// Keeping children one by one keeps those for which a condition holds.
proof fn lemma_waitable_filter(
    children: Seq<Child>,
    target: WaitTarget,
    tid: u32,
    filter: WaitChildFilter,
    keep: spec_fn(Child) -> bool,
)
    requires
        forall|c: Child| #[trigger]
            keep(c) <==> target.selects(c.node.pid, c.node.pgid) && filter.admits(&c, tid),
    ensures
        waitable(children, target, tid, filter) == children.filter(keep),
    decreases children.len(),
{
    reveal(Seq::filter);
    if children.len() > 0 {
        lemma_waitable_filter(children.drop_last(), target, tid, filter, keep);
        assert(keep(children.last()) <==> target.selects(
            children.last().node.pid,
            children.last().node.pgid,
        ) && filter.admits(&children.last(), tid));
    }
}

/// A `waitpid` is for exactly the children that its argument denotes and whose
/// kind its options ask for, in their order. Options other than bits 0, 1, 3 and
/// 29 to 31 are invalid, and a wait for nobody fails.
pub proof fn law_waitpid_is_for_the_children_it_names(
    pid: i32,
    options: u32,
    own_pgid: u32,
    tid: u32,
    children: Vec<Child>,
    r: AxResult<WaitPid>,
)
    requires
        options / 16 % 0x200_0000 == 0 && !opted(options, 2) ==> pid > i32::MIN,
        call_ensures(sys_waitpid, (pid, options, own_pgid, tid, children), r),
    ensures
        ({
            let chosen = children@.filter(
                |c: Child| pid_denotes(pid, own_pgid, c) && kind_is_waited_for(options, c, tid),
            );
            let known = options / 16 % 0x200_0000 == 0 && !opted(options, 2);
            &&& r == Err::<WaitPid, AxError>(AxError::InvalidInput) <==> !known
            &&& r == Err::<WaitPid, AxError>(AxError::NoChild) <==> known && chosen.len() == 0
            &&& r is Ok <==> known && chosen.len() > 0
            &&& r matches Ok(w) ==> w.children@ == chosen && w.options.bits == options
        }),
{
    lemma_option_bits(options);
    lemma_waitable_filter(
        children@,
        pid_target(pid, own_pgid),
        tid,
        WaitChildFilter::of_bits(options),
        |c: Child| pid_denotes(pid, own_pgid, c) && kind_is_waited_for(options, c, tid),
    );
}

/// A `waitid` is for exactly the children that its arguments denote and whose
/// kind its options ask for, in their order. What the arguments denote is found
/// out before the options are looked at, of which one has to say what to wait
/// for.
pub proof fn law_waitid_is_for_the_children_it_names(
    idtype: u32,
    id: i32,
    options: u32,
    own_pgid: u32,
    tid: u32,
    pidfd: PidFdLookup,
    children: Vec<Child>,
    r: AxResult<WaitId>,
)
    requires
        call_ensures(sys_waitid, (idtype, id, options, own_pgid, tid, pidfd, children), r),
    ensures
        ({
            let chosen = children@.filter(
                |c: Child|
                    id_denotes(idtype, id, own_pgid, pidfd, c) && kind_is_waited_for(
                        options,
                        c,
                        tid,
                    ),
            );
            let senseless = idtype > 3 || (idtype == 1 && id <= 0) || (idtype >= 2 && id < 0);
            let unusable = idtype == 3 && id >= 0 && !(pidfd is Process);
            let known = options / 16 % 0x10_0000 == 0 && options / 0x200_0000 % 16 == 0 && (opted(
                options,
                1,
            ) || opted(options, 2) || opted(options, 3));
            &&& senseless ==> r == Err::<WaitId, AxError>(AxError::InvalidInput)
            &&& unusable ==> r == Err::<WaitId, AxError>(
                match pidfd {
                    PidFdLookup::Missing(e) => e,
                    _ => AxError::BadFileDescriptor,
                },
            )
            &&& !senseless && !unusable ==> {
                &&& r == Err::<WaitId, AxError>(AxError::InvalidInput) <==> !known
                &&& r == Err::<WaitId, AxError>(AxError::NoChild) <==> known && chosen.len() == 0
                &&& r is Ok <==> known && chosen.len() > 0
                &&& r matches Ok(w) ==> w.children@ == chosen && w.options.bits == options
            }
        }),
{
    lemma_option_bits(options);
    if let Ok(target) = id_target(idtype, id, own_pgid, pidfd) {
        lemma_waitable_filter(
            children@,
            target,
            tid,
            WaitChildFilter::of_bits(options),
            |c: Child|
                id_denotes(idtype, id, own_pgid, pidfd, c) && kind_is_waited_for(options, c, tid),
        );
    }
}

/// A target given by an id also stands for the threads of a process.
pub proof fn law_threads_stand_for_their_process(
    target: &WaitTarget,
    child: &ProcessNode,
    own: bool,
    any: bool,
)
    requires
        call_ensures(WaitTarget::matches, (target, child), own),
        call_ensures(WaitTarget::matches_process_or_thread, (target, child), any),
    ensures
        own <==> match target {
            WaitTarget::Any => true,
            WaitTarget::Pid(pid) => child.pid == *pid,
            WaitTarget::Pgid(pgid) => child.pgid == *pgid,
        },
        own ==> any,
        any && !own ==> (target matches WaitTarget::Pid(pid) && child.threads@.contains(*pid)),
        target matches WaitTarget::Pid(pid) ==> (child.threads@.contains(*pid) ==> any),
{
}

/// A child is reported with the user that was recorded; else with that of the
/// first of its threads that is known, and with root if none is.
pub proof fn law_user_of_a_child(zombie_uid: Option<u32>, uids: &Vec<Option<u32>>, r: u32)
    requires
        call_ensures(child_uid, (zombie_uid, uids), r),
    ensures
        zombie_uid matches Some(uid) ==> r == uid,
        zombie_uid is None ==> (exists|i: int|
            0 <= i < uids@.len() && #[trigger] uids@[i] == Some(r) && (forall|j: int|
                0 <= j < i ==> (#[trigger] uids@[j]) is None)) || (r == 0 && forall|j: int|
            0 <= j < uids@.len() ==> (#[trigger] uids@[j]) is None),
{
    lemma_first_known(uids@);
}

/// The first that is known, if any is.
proof fn lemma_first_known(uids: Seq<Option<u32>>)
    ensures
        first_known(uids) is Some ==> exists|i: int|
            0 <= i < uids.len() && #[trigger] uids[i] == first_known(uids) && (forall|j: int|
                0 <= j < i ==> (#[trigger] uids[j]) is None),
        first_known(uids) is None ==> forall|j: int|
            0 <= j < uids.len() ==> (#[trigger] uids[j]) is None,
    decreases uids.len(),
{
    if uids.len() > 0 {
        let rest = uids.skip(1);
        if uids[0] is Some {
            assert(uids[0] == first_known(uids));
        } else {
            lemma_first_known(rest);
            if first_known(rest) is Some {
                let i = choose|i: int|
                    0 <= i < rest.len() && #[trigger] rest[i] == first_known(rest) && (forall|
                        j: int,
                    |
                        0 <= j < i ==> (#[trigger] rest[j]) is None);
                assert(uids[i + 1] == first_known(uids));
                assert forall|j: int| 0 <= j < i + 1 implies (#[trigger] uids[j]) is None by {
                    if j > 0 {
                        assert(rest[j - 1] == uids[j]);
                    }
                }
            } else {
                assert forall|j: int| 0 <= j < uids.len() implies (#[trigger] uids[j]) is None by {
                    if j > 0 {
                        assert(rest[j - 1] == uids[j]);
                    }
                }
            }
        }
    }
}

/// The status of a stopped child says so in its low byte and names the signal
/// in the next one; that of a continued child is one that no stop has.
pub proof fn law_job_status_can_be_told_apart(status: JobStatus, r: i32)
    requires
        call_ensures(encode_job_status, (status,), r),
    ensures
        status matches JobStatus::Stopped(signo) ==> r % 256 == 127 && r / 256 == signo.number,
        status is Continued ==> r == 256 * 256 - 1,
{
}

/// The four bytes that were written decode, lowest first, to `code`.
pub open spec fn decodes_to(bytes: Seq<u8>, code: i32) -> bool {
    bytes.len() == 4 && number_at(bytes, 0, 4) == if code >= 0 {
        code as int
    } else {
        code + 0x1_0000_0000
    }
}

/// The bytes of a status decode to it.
proof fn lemma_status_bytes(code: i32)
    ensures
        decodes_to(half_bytes(code as u32), code),
{
    assert(code >= 0 ==> (code as u32) == code) by (bit_vector);
    assert(code < 0 ==> (code as u32) == code + 0x1_0000_0000) by (bit_vector);
    law_half_round_trip(code as u32);
    law_half_is_a_number(half_bytes(code as u32));
}

/// What a wait for the given kinds is told by a child that lives.
pub open spec fn tells(c: Child, stopped: bool, continued: bool) -> bool {
    c.live is Some && match c.live->0.job_control.status {
        Some(JobStatus::Stopped(_)) => stopped,
        Some(JobStatus::Continued) => continued,
        None => false,
    }
}

/// The sum of the user times, or of the system times, in nanoseconds.
pub open spec fn sum_of(times: Seq<(TimeValue, TimeValue)>, system: bool) -> int {
    times.fold_left(
        0,
        |sum: int, t: (TimeValue, TimeValue)|
            if system {
                sum + t.1.secs * 1_000_000_000 + t.1.nanos
            } else {
                sum + t.0.secs * 1_000_000_000 + t.0.nanos
            },
    )
}

/// Adding times one by one is summing them up.
proof fn lemma_sum_of(times: Seq<(TimeValue, TimeValue)>, system: bool)
    ensures
        all_nanos(times, system) == sum_of(times, system),
    decreases times.len(),
{
    reveal_with_fuel(Seq::fold_left, 2);
    if times.len() > 0 {
        lemma_sum_of(times.drop_last(), system);
    }
}

/// The times of the children that `after` has more than `before` are `times`.
pub open spec fn counts<A, W>(
    before: ProcessData<A, W>,
    after: ProcessData<A, W>,
    times: Seq<(TimeValue, TimeValue)>,
) -> bool {
    let (u0, s0) = before.children_cpu_time;
    let (u1, s1) = after.children_cpu_time;
    &&& u1.secs * 1_000_000_000 + u1.nanos == u0.secs * 1_000_000_000 + u0.nanos + sum_of(
        times,
        false,
    )
    &&& s1.secs * 1_000_000_000 + s1.nanos == s0.secs * 1_000_000_000 + s0.nanos + sum_of(
        times,
        true,
    )
    &&& u1.nanos < 1_000_000_000 && s1.nanos < 1_000_000_000
}

/// A `waitpid` reaps the first child that has terminated: it writes exactly the
/// exit code of that child, four bytes, lowest first, and counts its times. If
/// none has, it tells of the first child that has something of the wanted kinds
/// to report. If there is no such child either, it waits, or not, as asked. It
/// writes nothing else, and nothing at all if the address is null; and if the
/// write fails, that is the result, and nothing is counted.
pub proof fn law_waitpid_tells_what_happened<A, W, V: VmIo>(
    wait: &WaitPid,
    vm: &mut UserMemory<V>,
    exit_code: usize,
    data: &mut ProcessData<A, W>,
    times: &Vec<(TimeValue, TimeValue)>,
    r: AxResult<Option<WaitEvent>>,
)
    requires
        wait.children@.len() <= usize::MAX,
        call_ensures(WaitPid::check_children, (wait, vm, exit_code, data, times), r),
    ensures
        ({
            let c = wait.children@;
            let bits = wait.options.bits;
            let stopped = opted(bits, 1);
            let continued = opted(bits, 3);
            let done = final(vm).accesses().skip(old(vm).accesses().len() as int);
            let gone = exists|k: int| 0 <= k < c.len() && (#[trigger] c[k]).node.zombie;
            let told = exists|k: int| 0 <= k < c.len() && tells(#[trigger] c[k], stopped, continued);
            &&& r matches Ok(Some(WaitEvent::Reaped { index })) ==> {
                &&& index < c.len() && c[index as int].node.zombie
                &&& forall|k: int| 0 <= k < index ==> !(#[trigger] c[k]).node.zombie
                &&& exit_code != 0 ==> done.len() == 1 && (done[0] matches VmAccess::Write {
                    start,
                    data: bytes,
                    result,
                } && start == exit_code && result is Ok && decodes_to(
                    bytes,
                    c[index as int].node.exit_code,
                ))
                &&& counts(*old(data), *final(data), times@)
            }
            &&& r matches Ok(Some(WaitEvent::Reported { index })) ==> {
                &&& !gone && index < c.len() && tells(c[index as int], stopped, continued)
                &&& forall|k: int| 0 <= k < index ==> !tells(#[trigger] c[k], stopped, continued)
                &&& exit_code != 0 ==> done.len() == 1 && (done[0] matches VmAccess::Write {
                    start,
                    data: bytes,
                    result,
                } && start == exit_code && result is Ok && bytes.len() == 4 && number_at(
                    bytes,
                    0,
                    4,
                ) == match c[index as int].live->0.job_control.status->0 {
                    JobStatus::Stopped(signo) => signo.number * 256 + 127,
                    JobStatus::Continued => 65535,
                })
            }
            &&& r matches Ok(Some(WaitEvent::Nothing)) ==> !gone && !told && opted(bits, 0)
                && done.len() == 0
            &&& r matches Ok(None) ==> !gone && !told && !opted(bits, 0) && done.len() == 0
            &&& r matches Err(e) ==> (gone || told) && exit_code != 0 && done.len() == 1 && (done[0]
                matches VmAccess::Write { start, result: Err(cause), .. } && start == exit_code && e
                == ax_error_of(cause))
            &&& exit_code == 0 ==> done.len() == 0
            &&& !(r matches Ok(Some(WaitEvent::Reaped { .. }))) ==> *final(data) == *old(data)
            &&& final(data).proc == old(data).proc && final(data).aspace == old(data).aspace
            &&& final(data).job_control == old(data).job_control
        }),
{
    let c = wait.children@;
    let bits = wait.options.bits;
    let stopped = has_flag(bits, WUNTRACED);
    let continued = has_flag(bits, WCONTINUED);
    let done = final(vm).accesses().skip(old(vm).accesses().len() as int);
    lemma_option_bits(bits);
    lemma_sum_of(times@, false);
    lemma_sum_of(times@, true);
    assert forall|k: int| 0 <= k < c.len() implies (job_report(
        #[trigger] c[k],
        stopped,
        continued,
    ) is Some <==> tells(c[k], stopped, continued)) by {}
    if !no_zombie(c) {
        lemma_some_zombie(c, c.len() as int);
        lemma_status_bytes(c[zombie_index(c)].node.exit_code);
    } else if !no_report(c, stopped, continued) {
        lemma_some_report(c, stopped, continued, c.len() as int);
        let i = report_index(c, stopped, continued);
        lemma_status_bytes(raw_status(job_report(c[i], stopped, continued)->0));
    }
}

/// A `waitid` tells of the first child that has terminated, if it is for such
/// children: it writes the description of that child, and then, unless it is to
/// leave the child as it is, reaps it and counts its times. If there is none and
/// the caller does not want to wait, it writes an empty description. If the
/// write fails, that is the result, and the child stays.
pub proof fn law_waitid_tells_what_happened<A, W, V: VmIo>(
    wait: &WaitId,
    vm: &mut UserMemory<V>,
    infop: usize,
    siginfo: &Vec<u8>,
    data: &mut ProcessData<A, W>,
    times: &Vec<(TimeValue, TimeValue)>,
    r: AxResult<Option<WaitIdEvent>>,
)
    requires
        wait.children@.len() <= usize::MAX,
        call_ensures(WaitId::check_children, (wait, vm, infop, siginfo, data, times), r),
    ensures
        ({
            let c = wait.children@;
            let bits = wait.options.bits;
            let done = final(vm).accesses().skip(old(vm).accesses().len() as int);
            let gone = opted(bits, 2) && exists|k: int|
                0 <= k < c.len() && (#[trigger] c[k]).node.zombie;
            let written = infop != 0 ==> done.len() == 1 && (done[0] matches VmAccess::Write {
                start,
                data: bytes,
                result,
            } && start == infop && (result is Ok <==> r is Ok) && (if gone {
                bytes == siginfo@
            } else {
                bytes.len() == 128 && forall|i: int| 0 <= i < 128 ==> #[trigger] bytes[i] == 0
            }));
            &&& r matches Ok(Some(WaitIdEvent::Reaped { index })) ==> {
                &&& gone && !opted(bits, 24) && written
                &&& index < c.len() && c[index as int].node.zombie
                &&& forall|k: int| 0 <= k < index ==> !(#[trigger] c[k]).node.zombie
                &&& counts(*old(data), *final(data), times@)
            }
            &&& r matches Ok(Some(WaitIdEvent::Kept { index })) ==> {
                &&& gone && opted(bits, 24) && written
                &&& index < c.len() && c[index as int].node.zombie
                &&& forall|k: int| 0 <= k < index ==> !(#[trigger] c[k]).node.zombie
            }
            &&& r matches Ok(Some(WaitIdEvent::Nothing)) ==> !gone && opted(bits, 0) && written
            &&& r matches Ok(None) ==> !gone && !opted(bits, 0) && done.len() == 0
            &&& r matches Err(e) ==> infop != 0 && (gone || opted(bits, 0)) && written && e
                == ax_error_of(done[0]->result->Err_0)
            &&& infop == 0 ==> done.len() == 0
            &&& !(r matches Ok(Some(WaitIdEvent::Reaped { .. }))) ==> *final(data) == *old(data)
        }),
{
    let c = wait.children@;
    lemma_option_bits(wait.options.bits);
    lemma_sum_of(times@, false);
    lemma_sum_of(times@, true);
    if !no_zombie(c) {
        lemma_some_zombie(c, c.len() as int);
    }
}

/// The child that a wait reads the times and the description of is the one that
/// it then tells of.
pub proof fn law_exited_child_is_the_first(wait: &WaitPid, r: Option<usize>)
    requires
        wait.children@.len() <= usize::MAX,
        call_ensures(WaitPid::exited_child, (wait,), r),
    ensures
        r matches Some(i) ==> i < wait.children@.len() && wait.children@[i as int].node.zombie && (
        forall|k: int| 0 <= k < i ==> !(#[trigger] wait.children@[k]).node.zombie),
        r is None ==> forall|k: int|
            0 <= k < wait.children@.len() ==> !(#[trigger] wait.children@[k]).node.zombie,
{
}

/// The same of a `waitid`, which looks for such a child only if it is for them.
pub proof fn law_exited_child_of_waitid_is_the_first(wait: &WaitId, r: Option<usize>)
    requires
        wait.children@.len() <= usize::MAX,
        call_ensures(WaitId::exited_child, (wait,), r),
    ensures
        r matches Some(i) ==> opted(wait.options.bits, 2) && i < wait.children@.len()
            && wait.children@[i as int].node.zombie && (forall|k: int|
            0 <= k < i ==> !(#[trigger] wait.children@[k]).node.zombie),
        r is None ==> !opted(wait.options.bits, 2) || forall|k: int|
            0 <= k < wait.children@.len() ==> !(#[trigger] wait.children@[k]).node.zombie,
{
    lemma_option_bits(wait.options.bits);
}

/// A `waitpid` returns the id of the child that it tells of, and zero for none.
pub proof fn law_waitpid_returns_the_child(wait: &WaitPid, event: WaitEvent, r: isize)
    requires
        event matches WaitEvent::Reaped { index } ==> index < wait.children@.len(),
        event matches WaitEvent::Reported { index } ==> index < wait.children@.len(),
        call_ensures(waitpid_value, (wait, event), r),
        usize::BITS == 64,
    ensures
        event matches WaitEvent::Reaped { index } ==> r == wait.children@[index as int].node.pid,
        event matches WaitEvent::Reported { index } ==> r == wait.children@[index as int].node.pid,
        event is Nothing ==> r == 0,
{
}

/// A wait goes on only while a look brings nothing, and sleeps only after a look
/// that it made once registered.
pub proof fn law_wait_sleeps_only_when_registered<E>(
    checked: &AxResult<Option<E>>,
    registered: bool,
    r: PollStep,
)
    requires
        call_ensures(wait_poll::<E>, (checked, registered), r),
    ensures
        r is Finish <==> checked is Err || checked->Ok_0 is Some,
        r is Sleep ==> registered,
        r is Register ==> !registered,
{
}

/// Times can be added when they are proper and their sum is not longer than the
/// longest span.
pub proof fn law_addable_times_fit<A, W>(
    data: &ProcessData<A, W>,
    times: &Vec<(TimeValue, TimeValue)>,
    r: bool,
)
    requires
        data.children_cpu_time.0.nanos < 1_000_000_000,
        data.children_cpu_time.1.nanos < 1_000_000_000,
        forall|i: int|
            0 <= i < times@.len() ==> (#[trigger] times@[i]).0.nanos < 1_000_000_000
                && times@[i].1.nanos < 1_000_000_000,
        call_ensures(is_addable, (data, times), r),
    ensures
        ({
            let (u, s) = data.children_cpu_time;
            r <==> u.secs * 1_000_000_000 + u.nanos + sum_of(times@, false) < (u64::MAX + 1)
                * 1_000_000_000 && s.secs * 1_000_000_000 + s.nanos + sum_of(times@, true) < (
            u64::MAX + 1) * 1_000_000_000
        }),
{
    lemma_sum_of(times@, false);
    lemma_sum_of(times@, true);
}

/// Options are taken as they are, exactly if all of them are known: bits 0, 1, 3
/// and 29 to 31 to `waitpid`, and 2 and 24 besides to `waitid`. An option is set
/// when its bit is.
pub proof fn law_known_options_are_taken(
    bits: u32,
    pid: Option<WaitPidOptions>,
    id: Option<WaitIdOptions>,
    of_pid: WaitPidOptions,
    of_id: WaitIdOptions,
    bit: u32,
    in_pid: bool,
    in_id: bool,
)
    requires
        call_ensures(WaitPidOptions::from_bits, (bits,), pid),
        call_ensures(WaitIdOptions::from_bits, (bits,), id),
        bit < 32,
        call_ensures(WaitPidOptions::contains, (&of_pid, 1u32 << bit), in_pid),
        call_ensures(WaitIdOptions::contains, (&of_id, 1u32 << bit), in_id),
    ensures
        pid is Some <==> bits / 16 % 0x200_0000 == 0 && !opted(bits, 2),
        id is Some <==> bits / 16 % 0x10_0000 == 0 && bits / 0x200_0000 % 16 == 0,
        pid matches Some(options) ==> options.bits == bits,
        id matches Some(options) ==> options.bits == bits,
        in_pid <==> opted(of_pid.bits, bit),
        in_id <==> opted(of_id.bits, bit),
{
    lemma_option_bits(bits);
    let a = of_pid.bits;
    let b = of_id.bits;
    assert(bit < 32 ==> (a & (1u32 << bit) == 1u32 << bit <==> a & (1u32 << bit) != 0)) by (
    bit_vector);
    assert(bit < 32 ==> (b & (1u32 << bit) == 1u32 << bit <==> b & (1u32 << bit) != 0)) by (
    bit_vector);
}

/// What the arguments of a wait denote: any child, the one with an id, or those
/// of a group.
pub proof fn law_targets_are_what_the_arguments_denote(
    pid: i32,
    idtype: u32,
    id: i32,
    own_pgid: u32,
    pidfd: PidFdLookup,
    c: Child,
    of_pid: WaitTarget,
    of_id: AxResult<WaitTarget>,
    of_fd: AxResult<WaitTarget>,
    chosen: bool,
)
    requires
        pid > i32::MIN,
        call_ensures(waitpid_target, (pid, own_pgid), of_pid),
        call_ensures(waitid_target, (idtype, id, own_pgid, pidfd), of_id),
        call_ensures(waitid_pidfd_target, (id, pidfd), of_fd),
        call_ensures(WaitTarget::matches, (&of_pid, &c.node), chosen),
    ensures
        chosen <==> pid_denotes(pid, own_pgid, c),
        of_id matches Ok(WaitTarget::Any) ==> idtype == 0,
        of_id matches Ok(WaitTarget::Pid(p)) ==> (idtype == 1 && p == id) || (idtype == 3 && pidfd
            == PidFdLookup::Process(p)),
        of_id matches Ok(WaitTarget::Pgid(g)) ==> idtype == 2 && (if id == 0 {
            g == own_pgid
        } else {
            g == id
        }),
        of_id is Ok <==> idtype == 0 || (idtype == 1 && id > 0) || (idtype == 2 && id >= 0) || (
        idtype == 3 && id >= 0 && pidfd is Process),
        of_fd is Ok <==> id >= 0 && pidfd is Process,
        of_fd matches Ok(t) ==> t == WaitTarget::Pid(pidfd->Process_0),
        id < 0 ==> of_fd == Err::<WaitTarget, AxError>(AxError::InvalidInput),
        id >= 0 && pidfd is NotAPidFd ==> of_fd == Err::<WaitTarget, AxError>(
            AxError::BadFileDescriptor,
        ),
        id >= 0 ==> (pidfd matches PidFdLookup::Missing(e) ==> of_fd == Err::<WaitTarget, AxError>(
            e,
        )),
{
}

/// A filter is what the options ask for, and lets a child of the kinds that they
/// ask for through.
pub proof fn law_filter_is_what_the_options_ask_for(
    options: &WaitPidOptions,
    same: &WaitIdOptions,
    c: &Child,
    tid: u32,
    clone: bool,
    f: WaitChildFilter,
    g: WaitChildFilter,
    kind: bool,
    chosen: bool,
)
    requires
        same.bits == options.bits,
        call_ensures(WaitChildFilter::from_waitpid_options, (options,), f),
        call_ensures(WaitChildFilter::from_waitid_options, (same,), g),
        call_ensures(WaitChildFilter::matches_clone_kind, (&f, clone), kind),
        call_ensures(WaitChildFilter::matches_process, (&f, c, tid), chosen),
    ensures
        f == g,
        kind <==> opted(options.bits, 30) || (clone <==> opted(options.bits, 31)),
        chosen <==> kind_is_waited_for(options.bits, *c, tid),
{
    lemma_option_bits(options.bits);
}

/// Of the children, exactly those are kept that the target selects and the filter
/// lets through, in their order.
pub proof fn law_chosen_children_are_kept(
    children: Vec<Child>,
    target: WaitTarget,
    tid: u32,
    filter: WaitChildFilter,
    r: Vec<Child>,
)
    requires
        call_ensures(waitable_processes, (children, target, tid, filter), r),
    ensures
        r@ == children@.filter(
            |c: Child|
                {
                    &&& match target {
                        WaitTarget::Any => true,
                        WaitTarget::Pid(pid) => c.node.pid == pid,
                        WaitTarget::Pgid(pgid) => c.node.pgid == pgid,
                    }
                    &&& filter.no_thread ==> (if c.live is Some {
                        c.live->0.wait_parent_tid == tid
                    } else {
                        c.zombie_wait_parent_tid == Some(tid)
                    })
                    &&& filter.wall || (filter.clone <==> (if c.live is Some {
                        c.live->0.clone_child
                    } else {
                        c.zombie_clone_child == Some(true)
                    }))
                },
        ),
{
    lemma_waitable_filter(
        children@,
        target,
        tid,
        filter,
        |c: Child|
            {
                &&& match target {
                    WaitTarget::Any => true,
                    WaitTarget::Pid(pid) => c.node.pid == pid,
                    WaitTarget::Pgid(pgid) => c.node.pgid == pgid,
                }
                &&& filter.no_thread ==> (if c.live is Some {
                    c.live->0.wait_parent_tid == tid
                } else {
                    c.zombie_wait_parent_tid == Some(tid)
                })
                &&& filter.wall || (filter.clone <==> (if c.live is Some {
                    c.live->0.clone_child
                } else {
                    c.zombie_clone_child == Some(true)
                }))
            },
    );
}

} // verus!
