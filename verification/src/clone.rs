//! Creating processes and threads: `clone`.
//!
//! What a `clone` has to do is worked out in full before anything is done, as
//! a list of operations. [`CloneRun`] goes through the list and stops at the
//! first operation that fails.

use std::sync::Arc;
use starry_process::Process;
use vstd::prelude::*;
use crate::errno::{AxError, AxResult};
use crate::process::{JobControl, ProcessData, ProcessImage, TimeValue, VforkDone};
use crate::process_tree::process_id;
use crate::signo::Signo;
use crate::thread::{NextSignalCheckBlock, Thread, DEFAULT_OOM_SCORE_ADJ};

verus! {

/// The child runs in the memory of the caller.
pub const CLONE_VM: u64 = 0x100;

/// The child shares the root and the working directory of the caller.
pub const CLONE_FS: u64 = 0x200;

/// The child shares the descriptor table of the caller.
pub const CLONE_FILES: u64 = 0x400;

/// The child shares the signal handlers of the caller.
pub const CLONE_SIGHAND: u64 = 0x800;

/// The caller is given a descriptor that denotes the child.
pub const CLONE_PIDFD: u64 = 0x1000;

/// The caller waits until the child executes a new image or exits.
pub const CLONE_VFORK: u64 = 0x4000;

/// The parent of the child is that of the caller.
pub const CLONE_PARENT: u64 = 0x8000;

/// The child is a thread of the process of the caller.
pub const CLONE_THREAD: u64 = 0x1_0000;

/// The child shares the semaphore adjustments of the caller.
pub const CLONE_SYSVSEM: u64 = 0x4_0000;

/// The child is given a thread pointer.
pub const CLONE_SETTLS: u64 = 0x8_0000;

/// The id of the child is stored in the memory of the caller.
pub const CLONE_PARENT_SETTID: u64 = 0x10_0000;

/// A word of the memory of the child is cleared when it exits.
pub const CLONE_CHILD_CLEARTID: u64 = 0x20_0000;

/// Obsolete.
pub const CLONE_DETACHED: u64 = 0x40_0000;

/// The id of the child is stored in its memory.
pub const CLONE_CHILD_SETTID: u64 = 0x100_0000;

/// The child shares the I/O context of the caller.
pub const CLONE_IO: u64 = 0x8000_0000;

/// The signal handlers of the child are the default ones.
pub const CLONE_CLEAR_SIGHAND: u64 = 0x1_0000_0000;

/// All flags.
pub const CLONE_MASK: u64 = 0x1_817d_df00;

/// The low bits of the flag argument of `clone`, which hold the exit signal.
pub const EXIT_SIGNAL_MASK: u32 = 0xff;

/// Flags of a `clone`.
#[derive(Debug, Clone, Copy, PartialEq, Eq, Structural)]
pub struct CloneFlags {
    /// The flags as bits.
    pub bits: u64,
}

impl CloneFlags {
    /// All bits of `flag` are set.
    pub open spec fn has(self, flag: u64) -> bool {
        self.bits & flag == flag
    }

    /// The flags `bits`, without those that are unknown.
    pub fn from_bits_truncate(bits: u64) -> (r: Self)
        ensures
            r.bits == bits & CLONE_MASK,
    {
        CloneFlags { bits: bits & CLONE_MASK }
    }

    /// Whether all bits of `flag` are set.
    pub fn contains(&self, flag: u64) -> (r: bool)
        ensures
            r == self.has(flag),
    {
        self.bits & flag == flag
    }
}

/// Arguments of a `clone`.
#[derive(Debug, Clone, Copy, PartialEq, Eq, Structural)]
pub struct CloneArgs {
    /// The flags.
    pub flags: CloneFlags,
    /// The signal that the parent is sent when the child exits; zero for none.
    pub exit_signal: u64,
    /// The stack pointer of the child; zero for that of the caller.
    pub stack: usize,
    /// The thread pointer of the child.
    pub tls: usize,
    /// Where the caller wants the id of the child.
    pub parent_tid: usize,
    /// Where the child wants its id, and which word is cleared when it exits.
    pub child_tid: usize,
    /// Where the caller wants the descriptor that denotes the child.
    pub pidfd: usize,
}

/// Where the signal handlers of a new process come from.
#[derive(Debug, Clone, Copy, PartialEq, Eq, Structural)]
pub enum HandlerSource {
    /// They are those of the caller.
    Shared,
    /// They are the default ones.
    Default,
    /// They are a copy of those of the caller.
    Copied,
}

/// One thing that a `clone` does.
#[derive(Debug, Clone, Copy, PartialEq, Eq, Structural)]
pub enum CloneOp {
    /// Create the task of the child. It continues where the caller does, with
    /// the registers of [`child_context`]. Once it runs it stores its id at
    /// `set_child_tid`, unless that is null.
    NewTask { stack: usize, tls: Option<usize>, set_child_tid: usize },
    /// Store the id of the child at the address. It does not matter whether
    /// that succeeds.
    StoreParentTid(usize),
    /// The child uses the process data and the page table of the caller.
    ShareProcess,
    /// Make a process for the child, as [`fork_process`] does: a child of the
    /// caller or, if `sibling`, of the parent of the caller. Fails if there is
    /// no such parent.
    ForkProcess { sibling: bool },
    /// The address space of the child is that of the caller.
    ShareAddressSpace,
    /// The address space of the child is a copy of that of the caller. Fails
    /// if it cannot be copied.
    CopyAddressSpace,
    /// Add the part of the kernel to the copy, where
    /// [`crate::loader::copy_from_kernel`] says so. Fails if that is impossible.
    CopyKernelPart,
    /// The child uses the page table of its address space.
    UsePageTable,
    /// Create the data of the new process, as [`child_process`] does.
    NewProcess { handlers: HandlerSource, exit_signal: Option<Signo>, vm_shared: bool },
    /// Give the child the descriptor table of the caller, or a copy of it.
    Files { shared: bool },
    /// Give the child the directories of the caller, or a copy of them.
    Directories { shared: bool },
    /// Add the child to the threads of its process, as [`add_thread`] does.
    AddThread,
    /// Create the data of the new thread, as [`child_thread`] does, with the
    /// signal mask of [`child_context`].
    NewThread { clear_child_tid: Option<usize> },
    /// Make a descriptor that denotes the child. Fails if there is none left.
    AddPidFd { thread: bool },
    /// Store the descriptor at the address. If that fails it is closed.
    StorePidFd(usize),
    /// Prepare the completion that the caller will wait for.
    ArmVfork,
    /// Let the child run.
    Spawn,
    /// Enter the child in the table of tasks.
    AddToTable,
    /// Wait for the completion.
    WaitVfork,
}

impl CloneOp {
    /// A failure of the operation is a failure of the call.
    pub open spec fn can_fail(self) -> bool {
        match self {
            CloneOp::ForkProcess { sibling } => sibling,
            CloneOp::CopyAddressSpace => true,
            CloneOp::CopyKernelPart => true,
            CloneOp::AddPidFd { .. } => true,
            CloneOp::StorePidFd(_) => true,
            _ => false,
        }
    }

    /// Whether a failure of the operation is a failure of the call.
    pub fn is_fallible(&self) -> (r: bool)
        ensures
            r == self.can_fail(),
    {
        match self {
            CloneOp::ForkProcess { sibling } => *sibling,
            CloneOp::CopyAddressSpace => true,
            CloneOp::CopyKernelPart => true,
            CloneOp::AddPidFd { .. } => true,
            CloneOp::StorePidFd(_) => true,
            _ => false,
        }
    }
}

/// The signal that the number `exit_signal` denotes, of which the low byte
/// counts; none for zero.
pub open spec fn exit_signal_of(exit_signal: u64) -> Option<Signo> {
    if exit_signal > 0 {
        Some(Signo { number: exit_signal as u8 })
    } else {
        None
    }
}

impl CloneArgs {
    /// No two of the arguments contradict each other.
    pub open spec fn consistent(self) -> bool {
        let flags = self.flags;
        &&& self.exit_signal > 0 ==> !flags.has(CLONE_THREAD) && !flags.has(CLONE_PARENT)
        &&& flags.has(CLONE_THREAD) ==> flags.has(CLONE_VM) && flags.has(CLONE_SIGHAND)
        &&& flags.has(CLONE_SIGHAND) ==> flags.has(CLONE_VM)
        &&& !(flags.has(CLONE_VFORK) && flags.has(CLONE_THREAD))
        &&& !(flags.has(CLONE_PIDFD) && flags.has(CLONE_DETACHED))
    }

    /// The exit signal is none or that of a signal.
    pub open spec fn has_exit_signal(self) -> bool {
        exit_signal_of(self.exit_signal) matches Some(signo) ==> signo.wf()
    }

    /// What is done for the process of the child.
    pub open spec fn process_ops(self) -> Seq<CloneOp> {
        let flags = self.flags;
        if flags.has(CLONE_THREAD) {
            seq![CloneOp::ShareProcess]
        } else {
            let aspace = if flags.has(CLONE_VM) {
                seq![CloneOp::ShareAddressSpace]
            } else {
                seq![CloneOp::CopyAddressSpace, CloneOp::CopyKernelPart]
            };
            let handlers = if flags.has(CLONE_SIGHAND) {
                HandlerSource::Shared
            } else if flags.has(CLONE_CLEAR_SIGHAND) {
                HandlerSource::Default
            } else {
                HandlerSource::Copied
            };
            seq![CloneOp::ForkProcess { sibling: flags.has(CLONE_PARENT) }] + aspace + seq![
                CloneOp::UsePageTable,
                CloneOp::NewProcess {
                    handlers,
                    exit_signal: exit_signal_of(self.exit_signal),
                    vm_shared: flags.has(CLONE_VM),
                },
                CloneOp::Files { shared: flags.has(CLONE_FILES) },
                CloneOp::Directories { shared: flags.has(CLONE_FS) },
            ]
        }
    }

    /// What is done first: the task of the child.
    pub open spec fn task_ops(self) -> Seq<CloneOp> {
        let flags = self.flags;
        let task = CloneOp::NewTask {
            stack: self.stack,
            tls: if flags.has(CLONE_SETTLS) {
                Some(self.tls)
            } else {
                None
            },
            set_child_tid: if flags.has(CLONE_CHILD_SETTID) {
                self.child_tid
            } else {
                0
            },
        };
        if flags.has(CLONE_PARENT_SETTID) && self.parent_tid != 0 {
            seq![task, CloneOp::StoreParentTid(self.parent_tid)]
        } else {
            seq![task]
        }
    }

    /// What is done for the thread of the child.
    pub open spec fn thread_ops(self) -> Seq<CloneOp> {
        let flags = self.flags;
        let pidfd = if flags.has(CLONE_PIDFD) && self.pidfd != 0 {
            seq![
                CloneOp::AddPidFd { thread: flags.has(CLONE_THREAD) },
                CloneOp::StorePidFd(self.pidfd),
            ]
        } else {
            Seq::empty()
        };
        let vfork = if flags.has(CLONE_VFORK) {
            seq![CloneOp::ArmVfork]
        } else {
            Seq::empty()
        };
        seq![
            CloneOp::AddThread,
            CloneOp::NewThread {
                clear_child_tid: if flags.has(CLONE_CHILD_CLEARTID) {
                    Some(self.child_tid)
                } else {
                    None
                },
            },
        ] + pidfd + vfork
    }

    /// What is done before the child runs.
    pub open spec fn ops_before_spawn(self) -> Seq<CloneOp> {
        self.task_ops() + self.process_ops() + self.thread_ops()
    }

    /// What is done from then on.
    pub open spec fn ops_from_spawn(self) -> Seq<CloneOp> {
        if self.flags.has(CLONE_VFORK) {
            seq![CloneOp::Spawn, CloneOp::AddToTable, CloneOp::WaitVfork]
        } else {
            seq![CloneOp::Spawn, CloneOp::AddToTable]
        }
    }

    /// All that is done.
    pub open spec fn all_ops(self) -> Seq<CloneOp> {
        self.ops_before_spawn() + self.ops_from_spawn()
    }

    /// Rejects arguments that contradict each other.
    pub fn validate(&self) -> (r: AxResult<()>)
        ensures
            r == (if self.consistent() {
                Ok::<(), AxError>(())
            } else {
                Err(AxError::InvalidInput)
            }),
    {
        let flags = self.flags;
        if self.exit_signal > 0 && (flags.contains(CLONE_THREAD) || flags.contains(CLONE_PARENT)) {
            return Err(AxError::InvalidInput);
        }
        if flags.contains(CLONE_THREAD) && !(flags.contains(CLONE_VM) && flags.contains(
            CLONE_SIGHAND,
        )) {
            return Err(AxError::InvalidInput);
        }
        if flags.contains(CLONE_SIGHAND) && !flags.contains(CLONE_VM) {
            return Err(AxError::InvalidInput);
        }
        if flags.contains(CLONE_VFORK) && flags.contains(CLONE_THREAD) {
            return Err(AxError::InvalidInput);
        }
        if flags.contains(CLONE_PIDFD) && flags.contains(CLONE_DETACHED) {
            return Err(AxError::InvalidInput);
        }
        Ok(())
    }

    /// Appends what is done first.
    fn push_task_ops(&self, ops: &mut Vec<CloneOp>)
        ensures
            final(ops)@ == old(ops)@ + self.task_ops(),
    {
        let ghost before = ops@;
        let flags = self.flags;
        let tls = if flags.contains(CLONE_SETTLS) {
            Some(self.tls)
        } else {
            None
        };
        let set_child_tid: usize = if flags.contains(CLONE_CHILD_SETTID) {
            self.child_tid
        } else {
            0
        };
        ops.push(CloneOp::NewTask { stack: self.stack, tls, set_child_tid });
        if flags.contains(CLONE_PARENT_SETTID) && self.parent_tid != 0 {
            ops.push(CloneOp::StoreParentTid(self.parent_tid));
        }
        assert(ops@ =~= before + self.task_ops());
    }

    /// Appends what is done for the process of the child.
    fn push_process_ops(&self, ops: &mut Vec<CloneOp>, exit_signal: Option<Signo>)
        requires
            exit_signal == exit_signal_of(self.exit_signal),
        ensures
            final(ops)@ == old(ops)@ + self.process_ops(),
    {
        let ghost before = ops@;
        let flags = self.flags;
        if flags.contains(CLONE_THREAD) {
            ops.push(CloneOp::ShareProcess);
        } else {
            let shares_vm = flags.contains(CLONE_VM);
            ops.push(CloneOp::ForkProcess { sibling: flags.contains(CLONE_PARENT) });
            if shares_vm {
                ops.push(CloneOp::ShareAddressSpace);
            } else {
                ops.push(CloneOp::CopyAddressSpace);
                ops.push(CloneOp::CopyKernelPart);
            }
            ops.push(CloneOp::UsePageTable);
            let handlers = if flags.contains(CLONE_SIGHAND) {
                HandlerSource::Shared
            } else if flags.contains(CLONE_CLEAR_SIGHAND) {
                HandlerSource::Default
            } else {
                HandlerSource::Copied
            };
            ops.push(CloneOp::NewProcess { handlers, exit_signal, vm_shared: shares_vm });
            ops.push(CloneOp::Files { shared: flags.contains(CLONE_FILES) });
            ops.push(CloneOp::Directories { shared: flags.contains(CLONE_FS) });
        }
        assert(ops@ =~= before + self.process_ops());
    }

    /// Appends what is done for the thread of the child.
    fn push_thread_ops(&self, ops: &mut Vec<CloneOp>)
        ensures
            final(ops)@ == old(ops)@ + self.thread_ops(),
    {
        let ghost before = ops@;
        let flags = self.flags;
        ops.push(CloneOp::AddThread);
        let clear_child_tid = if flags.contains(CLONE_CHILD_CLEARTID) {
            Some(self.child_tid)
        } else {
            None
        };
        ops.push(CloneOp::NewThread { clear_child_tid });
        if flags.contains(CLONE_PIDFD) && self.pidfd != 0 {
            ops.push(CloneOp::AddPidFd { thread: flags.contains(CLONE_THREAD) });
            ops.push(CloneOp::StorePidFd(self.pidfd));
        }
        if flags.contains(CLONE_VFORK) {
            ops.push(CloneOp::ArmVfork);
        }
        assert(ops@ =~= before + self.thread_ops());
    }

    /// What a `clone` with these arguments does.
    pub fn do_clone(&self) -> (r: AxResult<Vec<CloneOp>>)
        ensures
            match r {
                Ok(ops) => self.consistent() && self.has_exit_signal() && ops@ == self.all_ops(),
                Err(e) => e == AxError::InvalidInput && !(self.consistent()
                    && self.has_exit_signal()),
            },
    {
        if let Err(e) = self.validate() {
            return Err(e);
        }
        let exit_signal = if self.exit_signal > 0 {
            match Signo::from_repr(self.exit_signal as u8) {
                Some(signo) => Some(signo),
                None => {
                    return Err(AxError::InvalidInput);
                },
            }
        } else {
            None
        };
        let mut ops: Vec<CloneOp> = Vec::new();
        self.push_task_ops(&mut ops);
        self.push_process_ops(&mut ops, exit_signal);
        self.push_thread_ops(&mut ops);
        assert(ops@ =~= self.ops_before_spawn());
        ops.push(CloneOp::Spawn);
        ops.push(CloneOp::AddToTable);
        if self.flags.contains(CLONE_VFORK) {
            ops.push(CloneOp::WaitVfork);
        }
        assert(ops@ =~= self.ops_before_spawn() + self.ops_from_spawn());
        Ok(ops)
    }
}

/// The arguments that the registers of a `clone` make up. The low byte of the
/// flags is the exit signal. With `CLONE_PIDFD` the address for the id of the
/// child is that for the descriptor, so it cannot be asked for as well.
pub fn sys_clone(
    flags: u32,
    stack: usize,
    parent_tid: usize,
    tls: usize,
    child_tid: usize,
) -> (r: AxResult<CloneArgs>)
    ensures
        ({
            let bits = (flags & !EXIT_SIGNAL_MASK) as u64 & CLONE_MASK;
            let clone_flags = CloneFlags { bits };
            r == (if clone_flags.has(CLONE_PIDFD) && clone_flags.has(CLONE_PARENT_SETTID) {
                Err::<CloneArgs, AxError>(AxError::InvalidInput)
            } else {
                Ok(
                    CloneArgs {
                        flags: clone_flags,
                        exit_signal: (flags & EXIT_SIGNAL_MASK) as u64,
                        stack,
                        tls,
                        parent_tid,
                        child_tid,
                        pidfd: if clone_flags.has(CLONE_PIDFD) {
                            parent_tid
                        } else {
                            0
                        },
                    },
                )
            })
        }),
{
    let clone_flags = CloneFlags::from_bits_truncate((flags & !EXIT_SIGNAL_MASK) as u64);
    let exit_signal: u64 = (flags & EXIT_SIGNAL_MASK) as u64;
    if clone_flags.contains(CLONE_PIDFD) && clone_flags.contains(CLONE_PARENT_SETTID) {
        return Err(AxError::InvalidInput);
    }
    let pidfd: usize = if clone_flags.contains(CLONE_PIDFD) {
        parent_tid
    } else {
        0
    };
    Ok(CloneArgs { flags: clone_flags, exit_signal, stack, tls, parent_tid, child_tid, pidfd })
}

/// What a thread runs user code with, as far as a `clone` changes or hands it
/// on.
#[derive(Debug, Clone, Copy, PartialEq, Eq, Structural)]
pub struct ThreadContext {
    /// The stack pointer.
    pub sp: usize,
    /// The thread pointer.
    pub tls: usize,
    /// The register that holds the result of a system call.
    pub retval: usize,
    /// The blocked signals.
    pub blocked: u64,
}

/// What the child begins with: the state of the caller, with the stack pointer
/// `stack` unless that is zero, with the thread pointer `tls` if there is one,
/// and with a result of zero.
pub fn child_context(caller: ThreadContext, stack: usize, tls: Option<usize>) -> (r: ThreadContext)
    ensures
        r == (ThreadContext {
            sp: if stack == 0 {
                caller.sp
            } else {
                stack
            },
            tls: match tls {
                Some(tls) => tls,
                None => caller.tls,
            },
            retval: 0,
            blocked: caller.blocked,
        }),
{
    let mut child = caller;
    if stack != 0 {
        child.sp = stack;
    }
    if let Some(tls) = tls {
        child.tls = tls;
    }
    child.retval = 0;
    child
}

/// The process of which the new one is a child: `caller` or, if `sibling`, its
/// parent `parent`, which there has to be.
pub fn fork_parent(
    caller: Arc<Process>,
    parent: Option<Arc<Process>>,
    sibling: bool,
) -> (r: AxResult<Arc<Process>>)
    ensures
        r == (if !sibling {
            Ok::<Arc<Process>, AxError>(caller)
        } else {
            match parent {
                Some(parent) => Ok(parent),
                None => Err(AxError::InvalidInput),
            }
        }),
{
    if !sibling {
        return Ok(caller);
    }
    match parent {
        Some(parent) => Ok(parent),
        None => Err(AxError::InvalidInput),
    }
}

/// Makes a process with the id `pid`: a child of `caller` or, if `sibling`, of
/// the parent that `caller` has at the moment, as [`fork_parent`] decides.
///
/// `starry_process::Process::fork` is asked for a child of just that process,
/// and `starry_process::Process::parent` tells who the parent is.
pub fn fork_process(caller: &Arc<Process>, sibling: bool, pid: u32) -> (r: AxResult<Arc<Process>>)
    ensures
        !sibling ==> (r matches Ok(child) && call_ensures(Process::fork, (caller, pid), child)),
        sibling ==> exists|asked: Option<Arc<Process>>| #[trigger]
            call_ensures(Process::parent, (&**caller,), asked) && (match asked {
                Some(under) => r matches Ok(child) && call_ensures(
                    Process::fork,
                    (&under, pid),
                    child,
                ),
                None => r == Err::<Arc<Process>, AxError>(AxError::InvalidInput),
            }),
        r matches Ok(child) ==> process_id(*child) == pid,
{
    let parent = if sibling {
        caller.parent()
    } else {
        None
    };
    match fork_parent(caller.clone(), parent, sibling) {
        Ok(under) => {
            let child = under.fork(pid);
            Ok(child)
        },
        Err(e) => Err(e),
    }
}

/// Enters the thread `tid` in the threads of `process`.
pub fn add_thread(process: &Arc<Process>, tid: u32)
    ensures
        call_ensures(Process::add_thread, (process, tid), ()),
{
    process.add_thread(tid)
}

/// The data of a new process: the image and the settings of `parent`, with
/// `proc` and `aspace` of its own, created by the thread `caller_tid`.
pub fn child_process<A, W>(
    parent: &ProcessData<A, W>,
    proc: Arc<Process>,
    aspace: A,
    heap_base: usize,
    exit_signal: Option<Signo>,
    caller_tid: u32,
    vm_shared: bool,
) -> (r: ProcessData<A, W>)
    ensures
        r.exe_path@ == parent.exe_path@,
        r.auxv@ == parent.auxv@,
        r == (ProcessData {
            proc,
            exe_path: r.exe_path,
            cmdline: parent.cmdline,
            auxv: r.auxv,
            aspace,
            heap_top: parent.heap_top,
            exit_signal,
            wait_parent_tid: caller_tid,
            vfork_done: None::<VforkDone<W>>,
            umask: parent.umask,
            nice: parent.nice,
            membarrier_state: 0,
            dumpable: parent.dumpable,
            thp_disable: parent.thp_disable,
            children_cpu_time: (
                TimeValue { secs: 0, nanos: 0 },
                TimeValue { secs: 0, nanos: 0 },
            ),
            personality: parent.personality,
            vm_aspace_shared: vm_shared,
            aspace_slot_released: false,
            job_control: JobControl { stopped: None, status: None, continue_generation: 0 },
        }),
{
    let auxv = parent.auxv.clone();
    assert(auxv@ =~= parent.auxv@);
    let image = ProcessImage::new(parent.exe_path.clone(), parent.cmdline.clone(), auxv);
    let mut data = ProcessData::new(
        proc,
        image,
        aspace,
        heap_base,
        exit_signal,
        caller_tid,
        vm_shared,
    );
    data.inherit_from(parent);
    data
}

/// The data of a new thread: the credentials, the filter and the lack of new
/// privileges of `parent`, and the word to be cleared when it exits.
pub fn child_thread<C, S: Clone>(
    parent: &Thread<C, S>,
    tid: u32,
    clear_child_tid: Option<usize>,
) -> (r: Thread<C, S>)
    ensures
        cloned(parent.seccomp, r.seccomp),
        r == (Thread {
            tid,
            clear_child_tid: match clear_child_tid {
                Some(addr) => addr,
                None => 0,
            },
            robust_list_head: 0,
            oom_score_adj: DEFAULT_OOM_SCORE_ADJ,
            exit: false,
            accessing_user_memory: false,
            block_next_signal_check: NextSignalCheckBlock { blocked: false },
            exit_request: false,
            rseq_area: 0,
            rseq_signature: 0,
            pdeathsig: 0,
            no_new_privs: parent.no_new_privs,
            seccomp: r.seccomp,
            cred: parent.cred,
            fault_dump_signo: 0,
            uid_map_written: false,
            gid_map_written: false,
            setgroups_deny: false,
        }),
{
    let mut thr = Thread::new(tid, parent.cred(), parent.seccomp_state());
    if parent.no_new_privs() {
        thr.set_no_new_privs();
    }
    if let Some(addr) = clear_child_tid {
        thr.set_clear_child_tid(addr);
    }
    thr
}

/// How a `clone` goes on.
#[derive(Debug, Clone, Copy, PartialEq, Eq)]
pub enum CloneStep {
    /// Perform the operation.
    Perform(CloneOp),
    /// Close the descriptor that could not be stored.
    ClosePidFd,
    /// The call returns the id of the child, or the error.
    Return(AxResult<()>),
}

/// A `clone` in progress.
#[derive(Debug)]
pub struct CloneRun {
    /// All that is to be done.
    pub ops: Vec<CloneOp>,
    /// The operation that is being performed.
    pub at: usize,
    /// The error to be returned once the descriptor is closed.
    pub closing: Option<AxError>,
}

/// The step that follows when operation `at` of `ops` came out as `outcome`.
pub open spec fn step_after(ops: Seq<CloneOp>, at: int, outcome: AxResult<()>) -> CloneStep {
    match outcome {
        Err(e) if ops[at].can_fail() => if ops[at] is StorePidFd {
            CloneStep::ClosePidFd
        } else {
            CloneStep::Return(Err(e))
        },
        _ => if at + 1 < ops.len() {
            CloneStep::Perform(ops[at + 1])
        } else {
            CloneStep::Return(Ok(()))
        },
    }
}

impl CloneRun {
    /// Some operation is being performed.
    pub open spec fn wf(&self) -> bool {
        self.at < self.ops@.len()
    }

    /// Begins with the first operation.
    pub fn new(ops: Vec<CloneOp>) -> (r: CloneRun)
        requires
            ops@.len() > 0,
        ensures
            r == (CloneRun { ops, at: 0, closing: None }),
            r.wf(),
    {
        CloneRun { ops, at: 0, closing: None }
    }

    /// The operation that is being performed.
    pub fn current(&self) -> (r: CloneOp)
        requires
            self.wf(),
        ensures
            r == self.ops@[self.at as int],
    {
        self.ops[self.at]
    }

    /// Goes on after what was being performed came out as `outcome`.
    pub fn next(&mut self, outcome: AxResult<()>) -> (step: CloneStep)
        requires
            old(self).wf(),
        ensures
            final(self).wf(),
            final(self).ops@ == old(self).ops@,
            step == (match old(self).closing {
                Some(e) => CloneStep::Return(Err(e)),
                None => step_after(old(self).ops@, old(self).at as int, outcome),
            }),
            final(self).at == (if step is Perform {
                old(self).at + 1
            } else {
                old(self).at as int
            }),
            final(self).closing == (match (step, outcome) {
                (CloneStep::ClosePidFd, Err(e)) => Some(e),
                _ => old(self).closing,
            }),
    {
        if let Some(e) = self.closing {
            return CloneStep::Return(Err(e));
        }
        if let Err(e) = outcome {
            let op = self.ops[self.at];
            if op.is_fallible() {
                if let CloneOp::StorePidFd(_) = op {
                    self.closing = Some(e);
                    return CloneStep::ClosePidFd;
                }
                return CloneStep::Return(Err(e));
            }
        }
        if self.at < self.ops.len() - 1 {
            self.at = self.at + 1;
            CloneStep::Perform(self.ops[self.at])
        } else {
            CloneStep::Return(Ok(()))
        }
    }
}

/// A `clone` that fails has not let the child run: the operations that can
/// fail come before the one that lets it run.
pub proof fn law_failed_clone_spawns_nothing(args: CloneArgs, at: int, k: int)
    requires
        0 <= k <= at < args.all_ops().len(),
        args.all_ops()[at].can_fail(),
    ensures
        args.all_ops()[k] != CloneOp::Spawn,
        at < args.ops_before_spawn().len(),
{
    let before = args.ops_before_spawn();
    let from = args.ops_from_spawn();
    let all = args.all_ops();
    if at >= before.len() {
        assert(all[at] == from[at - before.len()]);
        assert(!all[at].can_fail());
    }
    assert(all[k] == before[k]);
    lemma_before_spawn(args, k);
}

/// The operations before the child runs are neither that nor what follows it.
proof fn lemma_before_spawn(args: CloneArgs, k: int)
    requires
        0 <= k < args.ops_before_spawn().len(),
    ensures
        args.ops_before_spawn()[k] != CloneOp::Spawn,
        args.ops_before_spawn()[k] != CloneOp::WaitVfork,
        args.ops_before_spawn()[k] == CloneOp::ArmVfork ==> args.flags.has(CLONE_VFORK),
{
    let t = args.task_ops();
    let p = args.process_ops();
    let th = args.thread_ops();
    if k < t.len() {
        assert(args.ops_before_spawn()[k] == t[k]);
    } else if k < t.len() + p.len() {
        assert(args.ops_before_spawn()[k] == p[k - t.len()]);
    } else {
        assert(args.ops_before_spawn()[k] == th[k - t.len() - p.len()]);
    }
}

/// The caller waits for the child exactly when it asked to with `CLONE_VFORK`,
/// whether or not the child has a stack of its own. What it waits for is
/// prepared before the child runs, and it waits afterwards.
pub proof fn law_vfork_blocks_the_caller(args: CloneArgs)
    ensures
        args.all_ops().contains(CloneOp::WaitVfork) <==> args.flags.has(CLONE_VFORK),
        args.all_ops().contains(CloneOp::ArmVfork) <==> args.flags.has(CLONE_VFORK),
        args.flags.has(CLONE_VFORK) ==> {
            let n = args.ops_before_spawn().len() as int;
            &&& args.all_ops()[n - 1] == CloneOp::ArmVfork
            &&& args.all_ops()[n] == CloneOp::Spawn
            &&& args.all_ops()[n + 2] == CloneOp::WaitVfork
            &&& args.all_ops().len() == n + 3
        },
{
    let before = args.ops_before_spawn();
    let from = args.ops_from_spawn();
    let all = args.all_ops();
    let n = before.len() as int;
    if args.flags.has(CLONE_VFORK) {
        assert(args.thread_ops().last() == CloneOp::ArmVfork);
        assert(before.last() == CloneOp::ArmVfork);
        assert(all[n - 1] == before[n - 1]);
        assert(all[n] == from[0]);
        assert(all[n + 2] == from[2]);
    } else {
        assert forall|k: int| 0 <= k < all.len() implies all[k] != CloneOp::WaitVfork && all[k]
            != CloneOp::ArmVfork by {
            if k < n {
                lemma_before_spawn(args, k);
                assert(all[k] == before[k]);
            } else {
                assert(all[k] == from[k - n]);
            }
        }
    }
}

/// The child of an accepted `clone` with `CLONE_THREAD` shares the process,
/// and with it the memory and the handlers, of the caller, sends no signal
/// when it exits, and is not waited for.
pub proof fn law_threads_share_their_process(args: CloneArgs)
    requires
        args.consistent(),
        args.flags.has(CLONE_THREAD),
    ensures
        args.process_ops() == seq![CloneOp::ShareProcess],
        args.flags.has(CLONE_VM) && args.flags.has(CLONE_SIGHAND),
        exit_signal_of(args.exit_signal) is None,
        !args.flags.has(CLONE_VFORK),
{
}

/// Where an operation stands among those of a `clone`.
pub open spec fn stage(op: CloneOp) -> int {
    match op {
        CloneOp::NewTask { .. } => 0,
        CloneOp::StoreParentTid(_) => 1,
        CloneOp::ShareProcess => 2,
        CloneOp::ForkProcess { .. } => 3,
        CloneOp::ShareAddressSpace => 4,
        CloneOp::CopyAddressSpace => 5,
        CloneOp::CopyKernelPart => 6,
        CloneOp::UsePageTable => 7,
        CloneOp::NewProcess { .. } => 8,
        CloneOp::Files { .. } => 9,
        CloneOp::Directories { .. } => 10,
        CloneOp::AddThread => 11,
        CloneOp::NewThread { .. } => 12,
        CloneOp::AddPidFd { .. } => 13,
        CloneOp::StorePidFd(_) => 14,
        CloneOp::ArmVfork => 15,
        CloneOp::Spawn => 16,
        CloneOp::AddToTable => 17,
        CloneOp::WaitVfork => 18,
    }
}

/// What a flag of a `clone` says, by the number of its bit.
pub open spec fn asks(bits: u64, bit: u64) -> bool {
    bits & (1u64 << bit) != 0
}

/// A flag is set when its bit is.
proof fn lemma_flag_bits(bits: u64)
    ensures
        bits & CLONE_VM == CLONE_VM <==> asks(bits, 8),
        bits & CLONE_FS == CLONE_FS <==> asks(bits, 9),
        bits & CLONE_FILES == CLONE_FILES <==> asks(bits, 10),
        bits & CLONE_SIGHAND == CLONE_SIGHAND <==> asks(bits, 11),
        bits & CLONE_PIDFD == CLONE_PIDFD <==> asks(bits, 12),
        bits & CLONE_VFORK == CLONE_VFORK <==> asks(bits, 14),
        bits & CLONE_PARENT == CLONE_PARENT <==> asks(bits, 15),
        bits & CLONE_THREAD == CLONE_THREAD <==> asks(bits, 16),
        bits & CLONE_SETTLS == CLONE_SETTLS <==> asks(bits, 19),
        bits & CLONE_PARENT_SETTID == CLONE_PARENT_SETTID <==> asks(bits, 20),
        bits & CLONE_CHILD_CLEARTID == CLONE_CHILD_CLEARTID <==> asks(bits, 21),
        bits & CLONE_DETACHED == CLONE_DETACHED <==> asks(bits, 22),
        bits & CLONE_CHILD_SETTID == CLONE_CHILD_SETTID <==> asks(bits, 24),
        bits & CLONE_CLEAR_SIGHAND == CLONE_CLEAR_SIGHAND <==> asks(bits, 32),
{
    assert({
        &&& (bits & 0x100 == 0x100 <==> bits & (1u64 << 8) != 0)
        &&& (bits & 0x200 == 0x200 <==> bits & (1u64 << 9) != 0)
        &&& (bits & 0x400 == 0x400 <==> bits & (1u64 << 10) != 0)
        &&& (bits & 0x800 == 0x800 <==> bits & (1u64 << 11) != 0)
        &&& (bits & 0x1000 == 0x1000 <==> bits & (1u64 << 12) != 0)
        &&& (bits & 0x4000 == 0x4000 <==> bits & (1u64 << 14) != 0)
        &&& (bits & 0x8000 == 0x8000 <==> bits & (1u64 << 15) != 0)
        &&& (bits & 0x1_0000 == 0x1_0000 <==> bits & (1u64 << 16) != 0)
        &&& (bits & 0x8_0000 == 0x8_0000 <==> bits & (1u64 << 19) != 0)
        &&& (bits & 0x10_0000 == 0x10_0000 <==> bits & (1u64 << 20) != 0)
        &&& (bits & 0x20_0000 == 0x20_0000 <==> bits & (1u64 << 21) != 0)
        &&& (bits & 0x40_0000 == 0x40_0000 <==> bits & (1u64 << 22) != 0)
        &&& (bits & 0x100_0000 == 0x100_0000 <==> bits & (1u64 << 24) != 0)
        &&& (bits & 0x1_0000_0000 == 0x1_0000_0000 <==> bits & (1u64 << 32) != 0)
    }) by (bit_vector);
}

/// A sequence with one more item holds what it held, and the item.
proof fn lemma_pushed(ops: Seq<CloneOp>, last: CloneOp, op: CloneOp)
    ensures
        ops.push(last).contains(op) <==> ops.contains(op) || op == last,
{
    if ops.contains(op) {
        let i = choose|i: int| 0 <= i < ops.len() && ops[i] == op;
        assert(ops.push(last)[i] == op);
    }
    assert(ops.push(last)[ops.len() as int] == last);
}

/// A joined sequence holds what either part does.
proof fn lemma_joined(a: Seq<CloneOp>, b: Seq<CloneOp>, op: CloneOp)
    ensures
        (a + b).contains(op) <==> a.contains(op) || b.contains(op),
{
    if a.contains(op) {
        let i = choose|i: int| 0 <= i < a.len() && a[i] == op;
        assert((a + b)[i] == op);
    }
    if b.contains(op) {
        let i = choose|i: int| 0 <= i < b.len() && b[i] == op;
        assert((a + b)[a.len() + i] == op);
    }
}

/// A `clone` does exactly this. The child has a stack and a thread pointer of
/// its own, stores its id, and has a word cleared, as it asks for; it is a
/// thread of the caller's process, or else a process that shares with the
/// caller what the flags ask for, and has a copy of, or a fresh version of, the
/// rest, each of these whatever the other flags are.
pub proof fn law_sharing_follows_the_flags(args: CloneArgs, ops: Vec<CloneOp>, op: CloneOp)
    requires
        call_ensures(CloneArgs::do_clone, (&args,), Ok(ops)),
    ensures
        ({
            let bits = args.flags.bits;
            let process = !asks(bits, 16);
            ops@.contains(op) <==> match op {
                CloneOp::NewTask { stack, tls, set_child_tid } => {
                    &&& stack == args.stack
                    &&& (tls is Some <==> asks(bits, 19)) && (tls matches Some(t) ==> t == args.tls)
                    &&& asks(bits, 24) ==> set_child_tid == args.child_tid
                    &&& !asks(bits, 24) ==> set_child_tid == 0
                },
                CloneOp::StoreParentTid(addr) => asks(bits, 20) && addr == args.parent_tid && addr
                    != 0,
                CloneOp::ShareProcess => !process,
                CloneOp::ForkProcess { sibling } => process && (sibling <==> asks(bits, 15)),
                CloneOp::ShareAddressSpace => process && asks(bits, 8),
                CloneOp::CopyAddressSpace => process && !asks(bits, 8),
                CloneOp::CopyKernelPart => process && !asks(bits, 8),
                CloneOp::UsePageTable => process,
                CloneOp::NewProcess { handlers, exit_signal, vm_shared } => {
                    &&& process
                    &&& (handlers is Shared <==> asks(bits, 11))
                    &&& (handlers is Default <==> !asks(bits, 11) && asks(bits, 32))
                    &&& (exit_signal is None <==> args.exit_signal == 0)
                    &&& (exit_signal matches Some(signo) ==> signo.number == args.exit_signal as u8)
                    &&& (vm_shared <==> asks(bits, 8))
                },
                CloneOp::Files { shared } => process && (shared <==> asks(bits, 10)),
                CloneOp::Directories { shared } => process && (shared <==> asks(bits, 9)),
                CloneOp::AddThread => true,
                CloneOp::NewThread { clear_child_tid } => {
                    &&& (clear_child_tid is Some <==> asks(bits, 21))
                    &&& (clear_child_tid matches Some(addr) ==> addr == args.child_tid)
                },
                CloneOp::AddPidFd { thread } => asks(bits, 12) && args.pidfd != 0 && (thread
                    <==> !process),
                CloneOp::StorePidFd(addr) => asks(bits, 12) && addr != 0 && addr == args.pidfd,
                CloneOp::ArmVfork => asks(bits, 14),
                CloneOp::Spawn => true,
                CloneOp::AddToTable => true,
                CloneOp::WaitVfork => asks(bits, 14),
            }
        }),
{
    lemma_flag_bits(args.flags.bits);
    lemma_task_ops_hold(args, op);
    lemma_process_ops_hold(args, op);
    lemma_thread_ops_hold(args, op);
    let none = Seq::<CloneOp>::empty();
    lemma_joined(args.task_ops(), args.process_ops(), op);
    lemma_joined(args.task_ops() + args.process_ops(), args.thread_ops(), op);
    lemma_joined(args.ops_before_spawn(), args.ops_from_spawn(), op);
    lemma_pushed(none, CloneOp::Spawn, op);
    lemma_pushed(none.push(CloneOp::Spawn), CloneOp::AddToTable, op);
    lemma_pushed(none.push(CloneOp::Spawn).push(CloneOp::AddToTable), CloneOp::WaitVfork, op);
}

/// What is done for the task, one by one.
proof fn lemma_task_ops_hold(args: CloneArgs, op: CloneOp)
    ensures
        args.task_ops().contains(op) <==> op == args.task_ops()[0] || (args.task_ops().len() == 2
            && op == args.task_ops()[1]),
{
    let ops = args.task_ops();
    assert(ops[0] == ops[0]);
    if ops.len() == 2 {
        assert(ops[1] == ops[1]);
    }
}

/// What is done for the process, one by one.
proof fn lemma_process_ops_hold(args: CloneArgs, op: CloneOp)
    ensures
        args.process_ops().contains(op) <==> exists|i: int|
            0 <= i < args.process_ops().len() && args.process_ops()[i] == op,
        !args.flags.has(CLONE_THREAD) ==> {
            let ops = args.process_ops();
            let n = ops.len() as int;
            &&& n == 6 || n == 7
            &&& ops.contains(op) <==> op == ops[0] || op == ops[1] || op == ops[2] || op == ops[3]
                || op == ops[4] || op == ops[5] || (n == 7 && op == ops[6])
        },
        args.flags.has(CLONE_THREAD) ==> (args.process_ops().contains(op) <==> op
            == CloneOp::ShareProcess),
{
    let ops = args.process_ops();
    assert(ops[0] == ops[0]);
    if !args.flags.has(CLONE_THREAD) {
        assert(ops[1] == ops[1] && ops[2] == ops[2] && ops[3] == ops[3]);
        assert(ops[4] == ops[4] && ops[5] == ops[5]);
        if ops.len() == 7 {
            assert(ops[6] == ops[6]);
        }
    }
}

/// What is done for the thread, one by one.
proof fn lemma_thread_ops_hold(args: CloneArgs, op: CloneOp)
    ensures
        ({
            let ops = args.thread_ops();
            let n = ops.len() as int;
            &&& 2 <= n <= 5
            &&& ops.contains(op) <==> op == ops[0] || op == ops[1] || (n > 2 && op == ops[2]) || (n
                > 3 && op == ops[3]) || (n > 4 && op == ops[4])
        }),
{
    let ops = args.thread_ops();
    assert(ops[0] == ops[0] && ops[1] == ops[1]);
    if ops.len() > 2 {
        assert(ops[2] == ops[2]);
    }
    if ops.len() > 3 {
        assert(ops[3] == ops[3]);
    }
    if ops.len() > 4 {
        assert(ops[4] == ops[4]);
    }
}

/// The operations of a `clone` come in one order, whatever the flags are, and
/// none comes twice: the child is put together before it runs, its address
/// space before its process, its process before its thread, and the caller
/// waits last.
pub proof fn law_operations_come_in_order(args: CloneArgs, ops: Vec<CloneOp>, i: int, j: int)
    requires
        call_ensures(CloneArgs::do_clone, (&args,), Ok(ops)),
        0 <= i < j < ops@.len(),
    ensures
        stage(ops@[i]) < stage(ops@[j]),
{
    let t = args.task_ops();
    let p = args.process_ops();
    let th = args.thread_ops();
    let from = args.ops_from_spawn();
    lemma_stage_of(args, i);
    lemma_stage_of(args, j);
    let a = t.len() as int;
    let b = a + p.len();
    let c = b + th.len();
    if j < a {
    } else if i >= a && j < b {
        lemma_process_ops_ascend(args, i - a, j - a);
    } else if i >= b && j < c {
        lemma_thread_ops_ascend(args, i - b, j - b);
    } else if i >= c {
        assert(stage(from[i - c]) == 16 + (i - c));
        assert(stage(from[j - c]) == 16 + (j - c));
    }
}

/// The operations for the process come in order.
proof fn lemma_process_ops_ascend(args: CloneArgs, i: int, j: int)
    requires
        0 <= i < j < args.process_ops().len(),
    ensures
        stage(args.process_ops()[i]) < stage(args.process_ops()[j]),
{
}

/// The operations for the thread come in order.
proof fn lemma_thread_ops_ascend(args: CloneArgs, i: int, j: int)
    requires
        0 <= i < j < args.thread_ops().len(),
    ensures
        stage(args.thread_ops()[i]) < stage(args.thread_ops()[j]),
{
}

/// Each operation belongs to one part.
proof fn lemma_stage_of(args: CloneArgs, i: int)
    requires
        0 <= i < args.all_ops().len(),
    ensures
        ({
            let a = args.task_ops().len() as int;
            let b = a + args.process_ops().len();
            let c = b + args.thread_ops().len();
            let op = args.all_ops()[i];
            if i < a {
                op == args.task_ops()[i] && stage(op) == i
            } else if i < b {
                op == args.process_ops()[i - a] && 2 <= stage(op) <= 10
            } else if i < c {
                op == args.thread_ops()[i - b] && 11 <= stage(op) <= 15
            } else {
                op == args.ops_from_spawn()[i - c] && 16 <= stage(op)
            }
        }),
{
}

/// A `clone` is accepted exactly when its arguments fit together: a thread
/// shares memory and handlers, handlers are shared only with memory, only a new
/// process that is the caller's own child sends a signal, and that signal
/// exists; nobody waits for a thread, and a descriptor does not denote a
/// detached child. Everything else is rejected as invalid.
pub proof fn law_accepted_arguments_fit_together(args: CloneArgs, r: AxResult<Vec<CloneOp>>)
    requires
        call_ensures(CloneArgs::do_clone, (&args,), r),
    ensures
        ({
            let bits = args.flags.bits;
            let signal = args.exit_signal as u8;
            &&& r is Ok <==> {
                &&& asks(bits, 16) ==> asks(bits, 8) && asks(bits, 11) && !asks(bits, 14)
                &&& asks(bits, 11) ==> asks(bits, 8)
                &&& asks(bits, 12) ==> !asks(bits, 22)
                &&& args.exit_signal != 0 ==> !asks(bits, 16) && !asks(bits, 15) && 1 <= signal
                    <= 64
            }
            &&& r matches Err(e) ==> e == AxError::InvalidInput
        }),
{
    lemma_flag_bits(args.flags.bits);
}

/// The registers of a `clone` are taken apart without loss: the low byte is the
/// exit signal, the other bits are flags, and the descriptor, if one is asked
/// for, goes where the id of the child would go, which then cannot be asked for.
pub proof fn law_registers_are_taken_apart(
    flags: u32,
    stack: usize,
    parent_tid: usize,
    tls: usize,
    child_tid: usize,
    r: AxResult<CloneArgs>,
)
    requires
        call_ensures(sys_clone, (flags, stack, parent_tid, tls, child_tid), r),
    ensures
        r is Err <==> asks(flags as u64, 12) && asks(flags as u64, 20),
        r matches Err(e) ==> e == AxError::InvalidInput,
        r matches Ok(args) ==> {
            &&& args.exit_signal == flags % 0x100
            &&& forall|bit: u64|
                8 <= bit < 32 && bit != 13 && bit != 17 && bit != 23 && !(25 <= bit < 31) ==> (
                #[trigger] asks(args.flags.bits, bit) <==> asks(flags as u64, bit))
            &&& args.flags.bits % 0x100 == 0
            &&& args.stack == stack && args.tls == tls && args.child_tid == child_tid
            &&& args.parent_tid == parent_tid
            &&& asks(flags as u64, 12) ==> args.pidfd == parent_tid
            &&& !asks(flags as u64, 12) ==> args.pidfd == 0
        },
{
    let bits = (flags & !EXIT_SIGNAL_MASK) as u64 & CLONE_MASK;
    lemma_flag_bits(bits);
    assert({
        &&& (flags & 0xff) == flags % 0x100
        &&& ((flags & !0xffu32) as u64 & 0x1_817d_df00u64) % 0x100 == 0
        &&& ((flags & !0xffu32) as u64 & 0x1_817d_df00u64) & (1u64 << 12) == flags as u64 & (1u64
            << 12)
        &&& ((flags & !0xffu32) as u64 & 0x1_817d_df00u64) & (1u64 << 20) == flags as u64 & (1u64
            << 20)
    }) by (bit_vector);
    assert forall|bit: u64|
        8 <= bit < 32 && bit != 13 && bit != 17 && bit != 23 && !(25 <= bit < 31) implies (
    #[trigger] asks(bits, bit) <==> asks(flags as u64, bit)) by {
        assert(8 <= bit < 32 && bit != 13 && bit != 17 && bit != 23 && !(25 <= bit < 31) ==> (((
        flags & !0xffu32) as u64 & 0x1_817d_df00u64) & (1u64 << bit) == flags as u64 & (1u64
            << bit))) by (bit_vector);
    }
}

/// A child continues as the caller does but for what it asks for, and knows
/// itself by a result of zero.
pub proof fn law_child_begins_as_its_caller(
    caller: ThreadContext,
    stack: usize,
    tls: Option<usize>,
    child: ThreadContext,
)
    requires
        call_ensures(child_context, (caller, stack, tls), child),
    ensures
        child.retval == 0,
        child.blocked == caller.blocked,
        stack != 0 ==> child.sp == stack,
        stack == 0 ==> child.sp == caller.sp,
        tls matches Some(t) ==> child.tls == t,
        tls is None ==> child.tls == caller.tls,
{
}

/// A step of a `clone` that fails ends it with that error, at once or after the
/// descriptor is closed; one that does not, or of which it does not matter,
/// goes on to the next operation; and the last one ends it with success.
pub proof fn law_first_failure_ends_a_clone(
    run: &mut CloneRun,
    outcome: AxResult<()>,
    step: CloneStep,
)
    requires
        call_ensures(CloneRun::next, (run, outcome), step),
        old(run).wf(),
    ensures
        ({
            let op = old(run).ops@[old(run).at as int];
            let matters = match op {
                CloneOp::ForkProcess { sibling } => sibling,
                CloneOp::CopyAddressSpace
                | CloneOp::CopyKernelPart
                | CloneOp::AddPidFd { .. }
                | CloneOp::StorePidFd(_) => true,
                _ => false,
            };
            &&& old(run).closing matches Some(e) ==> step == CloneStep::Return(Err(e))
            &&& old(run).closing is None && outcome is Err && matters ==> {
                let e = outcome->Err_0;
                if op is StorePidFd {
                    step == CloneStep::ClosePidFd && final(run).closing == Some(e)
                } else {
                    step == CloneStep::Return(Err(e))
                }
            }
            &&& old(run).closing is None && !(outcome is Err && matters) ==> {
                if old(run).at + 1 < old(run).ops@.len() {
                    step == CloneStep::Perform(old(run).ops@[old(run).at + 1]) && final(run).at
                        == old(run).at + 1
                } else {
                    step == CloneStep::Return(Ok(()))
                }
            }
            &&& final(run).ops@ == old(run).ops@
        }),
{
}

/// A child process has of its parent what a child inherits, nothing that was
/// only the parent's, and is its own: it has no times, no reports and no waiting
/// parent, and remembers who made it.
pub proof fn law_child_inherits_settings<A, W>(
    parent: &ProcessData<A, W>,
    proc: Arc<Process>,
    aspace: A,
    heap_base: usize,
    exit_signal: Option<Signo>,
    caller_tid: u32,
    vm_shared: bool,
    r: ProcessData<A, W>,
)
    requires
        call_ensures(
            child_process,
            (parent, proc, aspace, heap_base, exit_signal, caller_tid, vm_shared),
            r,
        ),
    ensures
        r.proc == proc && r.aspace == aspace,
        r.exit_signal == exit_signal && r.wait_parent_tid == caller_tid,
        r.vm_aspace_shared == vm_shared && !r.aspace_slot_released,
        r.exe_path@ == parent.exe_path@ && *r.cmdline == *parent.cmdline,
        r.auxv@ == parent.auxv@,
        r.heap_top == parent.heap_top,
        r.umask == parent.umask && r.nice == parent.nice,
        r.dumpable == parent.dumpable && r.thp_disable == parent.thp_disable,
        r.personality == parent.personality,
        r.membarrier_state == 0,
        r.vfork_done is None,
        r.children_cpu_time.0.total_nanos() == 0 && r.children_cpu_time.1.total_nanos() == 0,
        r.job_control.stopped is None && r.job_control.status is None,
{
}

/// A new thread has the credentials, the filter and the lack of privileges of
/// its creator, its own id and word to clear, and nothing else of it.
pub proof fn law_child_thread_inherits_rights<C, S: Clone>(
    parent: &Thread<C, S>,
    tid: u32,
    clear_child_tid: Option<usize>,
    r: Thread<C, S>,
)
    requires
        call_ensures(child_thread, (parent, tid, clear_child_tid), r),
    ensures
        r.tid == tid,
        *r.cred == *parent.cred,
        cloned(parent.seccomp, r.seccomp),
        r.no_new_privs == parent.no_new_privs,
        clear_child_tid matches Some(addr) ==> r.clear_child_tid == addr,
        clear_child_tid is None ==> r.clear_child_tid == 0,
        r.robust_list_head == 0 && r.rseq_area == 0 && r.rseq_signature == 0,
        !r.exit && !r.exit_request && !r.accessing_user_memory,
        !r.block_next_signal_check.blocked,
        r.pdeathsig == 0 && r.fault_dump_signo == 0,
        !r.uid_map_written && !r.gid_map_written && !r.setgroups_deny,
        r.oom_score_adj == 200,
{
}

/// Of the bits, those of known flags are kept and no other is added: 8 to 12, 14
/// to 16, 18 to 22, 24, 31 and 32. A flag is set when its bit is.
pub proof fn law_known_flags_are_kept(
    bits: u64,
    r: CloneFlags,
    of: &CloneFlags,
    bit: u64,
    set: bool,
)
    requires
        bit < 64,
        call_ensures(CloneFlags::from_bits_truncate, (bits,), r),
        call_ensures(CloneFlags::contains, (of, 1u64 << bit), set),
    ensures
        asks(r.bits, bit) <==> asks(bits, bit) && (8 <= bit <= 12 || 14 <= bit <= 16 || 18 <= bit
            <= 22 || bit == 24 || bit == 31 || bit == 32),
        set <==> asks(of.bits, bit),
{
    let own = of.bits;
    assert({
        &&& bit < 64 ==> (own & (1u64 << bit) == 1u64 << bit <==> own & (1u64 << bit) != 0)
        &&& bit < 64 ==> ((bits & 0x1_817d_df00u64) & (1u64 << bit) != 0 <==> bits & (1u64 << bit)
            != 0 && (8 <= bit <= 12 || 14 <= bit <= 16 || 18 <= bit <= 22 || bit == 24 || bit == 31
            || bit == 32))
    }) by (bit_vector);
}

/// A clone fails only with what may be missing: the parent of a sibling, memory
/// for the address space, or a descriptor and the place where it is stored.
pub proof fn law_only_some_operations_can_fail(op: &CloneOp, r: bool)
    requires
        call_ensures(CloneOp::is_fallible, (op,), r),
    ensures
        r <==> {
            ||| *op == (CloneOp::ForkProcess { sibling: true })
            ||| op is CopyAddressSpace
            ||| op is CopyKernelPart
            ||| op is AddPidFd
            ||| op is StorePidFd
        },
{
}

/// Arguments are accepted exactly when they do not contradict each other.
pub proof fn law_arguments_do_not_contradict(args: &CloneArgs, r: AxResult<()>)
    requires
        call_ensures(CloneArgs::validate, (args,), r),
    ensures
        ({
            let bits = args.flags.bits;
            &&& r is Ok <==> {
                &&& asks(bits, 16) ==> asks(bits, 8) && asks(bits, 11) && !asks(bits, 14)
                &&& asks(bits, 11) ==> asks(bits, 8)
                &&& asks(bits, 12) ==> !asks(bits, 22)
                &&& args.exit_signal != 0 ==> !asks(bits, 16) && !asks(bits, 15)
            }
            &&& r matches Err(e) ==> e == AxError::InvalidInput
        }),
{
    lemma_flag_bits(args.flags.bits);
}

/// A new process is the child of the caller, or of the caller's parent if it is
/// to be its sibling, and has the id that it is given. Only a sibling of a process
/// without a parent cannot be.
pub proof fn law_new_process_is_under_its_parent(
    caller: Arc<Process>,
    parent: Option<Arc<Process>>,
    sibling: bool,
    under: AxResult<Arc<Process>>,
    pid: u32,
    r: AxResult<Arc<Process>>,
)
    requires
        call_ensures(fork_parent, (caller, parent, sibling), under),
        call_ensures(fork_process, (&caller, sibling, pid), r),
    ensures
        !sibling ==> under == Ok::<Arc<Process>, AxError>(caller),
        sibling ==> (parent matches Some(p) ==> under == Ok::<Arc<Process>, AxError>(p)),
        under is Err <==> sibling && parent is None,
        under matches Err(e) ==> e == AxError::InvalidInput,
        !sibling ==> r is Ok && call_ensures(Process::fork, (&caller, pid), r->Ok_0),
        sibling && r is Ok ==> exists|p: Arc<Process>| #[trigger]
            call_ensures(Process::fork, (&p, pid), r->Ok_0) && call_ensures(
                Process::parent,
                (&*caller,),
                Some(p),
            ),
        r matches Err(e) ==> sibling && e == AxError::InvalidInput && call_ensures(
            Process::parent,
            (&*caller,),
            None,
        ),
        r matches Ok(child) ==> process_id(*child) == pid,
{
    if sibling {
        let asked = choose|asked: Option<Arc<Process>>| #[trigger]
            call_ensures(Process::parent, (&*caller,), asked) && (match asked {
                Some(p) => r matches Ok(child) && call_ensures(Process::fork, (&p, pid), child),
                None => r == Err::<Arc<Process>, AxError>(AxError::InvalidInput),
            });
        if r is Ok {
            let p = asked->0;
            assert(call_ensures(Process::fork, (&p, pid), r->Ok_0));
            assert(call_ensures(Process::parent, (&*caller,), Some(p)));
        }
    }
}

/// A clone begins with the first thing that is to be done.
pub proof fn law_clone_begins_with_the_first(ops: Vec<CloneOp>, run: CloneRun, op: CloneOp)
    requires
        ops@.len() > 0,
        call_ensures(CloneRun::new, (ops,), run),
        call_ensures(CloneRun::current, (&run,), op),
    ensures
        op == ops@[0] && run.ops == ops && run.closing is None,
{
}

} // verus!
