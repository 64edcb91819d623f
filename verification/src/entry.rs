//! Starting the first process.

use std::sync::Arc;
use starry_process::Process;
use vstd::prelude::*;
use crate::auxv::AuxEntry;
use crate::process::{JobControl, ProcessData, ProcessImage, TimeValue, VforkDone};
use crate::thread::{
    initial_cred, NextSignalCheckBlock, Thread, DEFAULT_OOM_SCORE_ADJ,
};

verus! {

/// The id of the first process, and of its thread, whatever the id of its task
/// is: programs tell from it that they are the first.
pub const INIT_PID: u32 = 1;

/// One thing that is done to start the first process, or after it has ended.
/// None of them may fail.
#[derive(Debug, Clone, Copy, PartialEq, Eq, Structural)]
pub enum InitOp {
    /// Start the services that observe the kernel: switches of its code,
    /// tracing, probes and modules.
    StartObservers,
    /// Mount the file systems that the kernel provides.
    MountPseudoFileSystems,
    /// Start the task that drives timers.
    SpawnAlarmTask,
    /// Start to serve events of devices.
    StartEventPump,
    /// Let page frames of cached files be reclaimed.
    RegisterReclaim,
    /// Resolve the path of the program, [`InitRun::path`].
    ResolveProgram,
    /// Create an address space, with the part of the kernel where
    /// [`crate::loader::copy_from_kernel`] says so.
    BuildAddressSpace,
    /// Load the program into it under the name [`InitRun::path`], with
    /// [`InitRun::args`] and [`InitRun::envs`].
    LoadProgram,
    /// Create the task, with fresh registers, in that address space.
    CreateTask,
    /// Create the process with the given id, and its thread with the same, as
    /// [`crate::clone::add_thread`] does.
    CreateProcess { pid: u32 },
    /// Make the terminal that of the process.
    BindTerminal,
    /// Create the data of the process, as [`init_process`] does.
    CreateProcessData,
    /// Open the standard descriptors.
    AddStdio,
    /// Create the data of the thread, as [`init_thread`] does.
    CreateThreadData,
    /// Let it run.
    Spawn,
    /// Enter it in the table of tasks.
    AddToTable,
    /// Wait until it has ended.
    Join,
    /// Unmount all file systems.
    UnmountAll,
    /// Write back what is left of the root file system.
    Flush,
}

/// What is done to run the first process, in order.
pub open spec fn init_ops() -> Seq<InitOp> {
    seq![
        InitOp::StartObservers,
        InitOp::MountPseudoFileSystems,
        InitOp::SpawnAlarmTask,
        InitOp::StartEventPump,
        InitOp::RegisterReclaim,
        InitOp::ResolveProgram,
        InitOp::BuildAddressSpace,
        InitOp::LoadProgram,
        InitOp::CreateTask,
        InitOp::CreateProcess { pid: INIT_PID },
        InitOp::BindTerminal,
        InitOp::CreateProcessData,
        InitOp::AddStdio,
        InitOp::CreateThreadData,
        InitOp::Spawn,
        InitOp::AddToTable,
        InitOp::Join,
        InitOp::UnmountAll,
        InitOp::Flush,
    ]
}

/// How the first process is run.
#[derive(Debug)]
pub struct InitRun<'a> {
    /// The path of its program.
    pub path: &'a String,
    /// Its arguments.
    pub args: &'a Vec<String>,
    /// Its environment.
    pub envs: &'a Vec<String>,
    /// What is done, in order.
    pub ops: Vec<InitOp>,
}

/// How the first process is run with the arguments `args`, of which the first
/// is the path of the program, and the environment `envs`.
pub fn init<'a>(args: &'a Vec<String>, envs: &'a Vec<String>) -> (r: InitRun<'a>)
    requires
        args@.len() > 0,
    ensures
        *r.path == args@[0],
        r.args == args,
        r.envs == envs,
        r.ops@ == init_ops(),
{
    let mut ops: Vec<InitOp> = Vec::new();
    ops.push(InitOp::StartObservers);
    ops.push(InitOp::MountPseudoFileSystems);
    ops.push(InitOp::SpawnAlarmTask);
    ops.push(InitOp::StartEventPump);
    ops.push(InitOp::RegisterReclaim);
    ops.push(InitOp::ResolveProgram);
    ops.push(InitOp::BuildAddressSpace);
    ops.push(InitOp::LoadProgram);
    ops.push(InitOp::CreateTask);
    ops.push(InitOp::CreateProcess { pid: INIT_PID });
    ops.push(InitOp::BindTerminal);
    ops.push(InitOp::CreateProcessData);
    ops.push(InitOp::AddStdio);
    ops.push(InitOp::CreateThreadData);
    ops.push(InitOp::Spawn);
    ops.push(InitOp::AddToTable);
    ops.push(InitOp::Join);
    ops.push(InitOp::UnmountAll);
    ops.push(InitOp::Flush);
    assert(ops@ =~= init_ops());
    InitRun { path: &args[0], args, envs, ops }
}

/// The data of the first process: it runs the program at `path` with `args`,
/// sends no signal when it exits, and shares its address space with nobody.
pub fn init_process<A, W>(
    proc: Arc<Process>,
    path: String,
    args: Vec<String>,
    auxv: Vec<AuxEntry>,
    aspace: A,
    heap_base: usize,
) -> (r: ProcessData<A, W>)
    ensures
        *r.cmdline == args,
        r == (ProcessData {
            proc,
            exe_path: path,
            cmdline: r.cmdline,
            auxv,
            aspace,
            heap_top: heap_base,
            exit_signal: None,
            wait_parent_tid: INIT_PID,
            vfork_done: None::<VforkDone<W>>,
            umask: 0o022,
            nice: 0,
            membarrier_state: 0,
            dumpable: 1,
            thp_disable: 0,
            children_cpu_time: (
                TimeValue { secs: 0, nanos: 0 },
                TimeValue { secs: 0, nanos: 0 },
            ),
            personality: 0,
            vm_aspace_shared: false,
            aspace_slot_released: false,
            job_control: JobControl { stopped: None, status: None, continue_generation: 0 },
        }),
{
    ProcessData::new(
        proc,
        ProcessImage::new(path, Arc::new(args), auxv),
        aspace,
        heap_base,
        None,
        INIT_PID,
        false,
    )
}

/// The data of the first thread: it has the credentials `root` and the filter
/// state `seccomp`.
pub fn init_thread<C, S>(root: C, seccomp: S) -> (r: Thread<C, S>)
    ensures
        *r.cred == root,
        r == (Thread {
            tid: INIT_PID,
            clear_child_tid: 0,
            robust_list_head: 0,
            oom_score_adj: DEFAULT_OOM_SCORE_ADJ,
            exit: false,
            accessing_user_memory: false,
            block_next_signal_check: NextSignalCheckBlock { blocked: false },
            exit_request: false,
            rseq_area: 0,
            rseq_signature: 0,
            pdeathsig: 0,
            no_new_privs: false,
            seccomp,
            cred: r.cred,
            fault_dump_signo: 0,
            uid_map_written: false,
            gid_map_written: false,
            setgroups_deny: false,
        }),
{
    Thread::new(INIT_PID, initial_cred(None, root), seccomp)
}

/// The first process runs before, and has ended when, the file systems are
/// unmounted, and what is left of them is written back last.
pub proof fn law_file_systems_outlive_the_first_process()
    ensures
        ({
            let ops = init_ops();
            let n = ops.len() as int;
            &&& ops[n - 1] == InitOp::Flush
            &&& ops[n - 2] == InitOp::UnmountAll
            &&& ops[n - 3] == InitOp::Join
            &&& exists|i: int| 0 <= i < n - 3 && #[trigger] ops[i] == InitOp::Spawn
        }),
{
    assert(init_ops()[14] == InitOp::Spawn);
}

/// The place of a thing among those that are done to run the first process.
pub open spec fn init_stage(op: InitOp) -> int {
    match op {
        InitOp::StartObservers => 0,
        InitOp::MountPseudoFileSystems => 1,
        InitOp::SpawnAlarmTask => 2,
        InitOp::StartEventPump => 3,
        InitOp::RegisterReclaim => 4,
        InitOp::ResolveProgram => 5,
        InitOp::BuildAddressSpace => 6,
        InitOp::LoadProgram => 7,
        InitOp::CreateTask => 8,
        InitOp::CreateProcess { .. } => 9,
        InitOp::BindTerminal => 10,
        InitOp::CreateProcessData => 11,
        InitOp::AddStdio => 12,
        InitOp::CreateThreadData => 13,
        InitOp::Spawn => 14,
        InitOp::AddToTable => 15,
        InitOp::Join => 16,
        InitOp::UnmountAll => 17,
        InitOp::Flush => 18,
    }
}

/// The first process is run with the arguments and the environment that are
/// given, from the path that the arguments begin with. Everything is done, once,
/// and in order: each thing at its place; and the process is number one.
pub proof fn law_everything_is_done_in_order(args: &Vec<String>, envs: &Vec<String>, r: InitRun)
    requires
        args@.len() > 0,
        call_ensures(init, (args, envs), r),
    ensures
        *r.path == args@[0] && *r.args == *args && *r.envs == *envs,
        r.ops@.len() == 19,
        forall|i: int| 0 <= i < 19 ==> init_stage(#[trigger] r.ops@[i]) == i,
        forall|i: int|
            0 <= i < 19 ==> (#[trigger] r.ops@[i] matches InitOp::CreateProcess { pid } ==> pid == 1),
{
}

/// The first process runs the program that it is given in its own address space;
/// its parent is told nothing when it exits; and it has the usual settings.
pub proof fn law_first_process_stands_alone<A, W>(
    proc: Arc<Process>,
    path: String,
    args: Vec<String>,
    auxv: Vec<AuxEntry>,
    aspace: A,
    heap_base: usize,
    r: ProcessData<A, W>,
)
    requires
        call_ensures(init_process::<A, W>, (proc, path, args, auxv, aspace, heap_base), r),
    ensures
        r.proc == proc && r.exe_path == path && *r.cmdline == args && r.auxv == auxv,
        r.aspace == aspace && r.heap_top == heap_base && !r.vm_aspace_shared,
        r.exit_signal is None && r.wait_parent_tid == 1 && r.vfork_done is None,
        r.umask == 18 && r.nice == 0 && r.dumpable == 1 && r.thp_disable == 0,
        r.membarrier_state == 0 && r.personality == 0 && !r.aspace_slot_released,
        r.job_control.stopped is None && r.job_control.status is None,
{
}

/// The first thread is number one and has the credentials and the filter that it
/// is given.
pub proof fn law_first_thread_is_number_one<C, S>(root: C, seccomp: S, r: Thread<C, S>)
    requires
        call_ensures(init_thread::<C, S>, (root, seccomp), r),
    ensures
        r.tid == 1 && *r.cred == root && r.seccomp == seccomp,
        r.oom_score_adj == 200 && !r.exit && !r.exit_request && !r.no_new_privs,
        r.clear_child_tid == 0 && r.robust_list_head == 0 && r.rseq_area == 0 && r.pdeathsig == 0,
{
}

} // verus!
