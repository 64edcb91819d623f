//! The process tree as the system calls see it.
//!
//! The tree is shared and changes all the time, so what is read from it is
//! copied into plain values first and decided upon afterwards.

use std::sync::Arc;
use starry_process::{Process, ProcessGroup};
use vstd::prelude::*;

verus! {

/// A node of the process tree: `starry_process::Process` is only carried.
#[verifier::external_type_specification]
#[verifier::external_body]
pub struct ExProcess(starry_process::Process);

/// A group of processes: `starry_process::ProcessGroup` is only carried.
#[verifier::external_type_specification]
#[verifier::external_body]
pub struct ExProcessGroup(starry_process::ProcessGroup);

/// The ids ascend, and none occurs twice.
pub open spec fn is_ascending(ids: Seq<u32>) -> bool {
    forall|i: int, j: int| 0 <= i < j < ids.len() ==> ids[i] < ids[j]
}

/// The threads of a process: `starry_process::Process::threads` lists a
/// `BTreeSet` of thread ids, so they come in ascending order and none twice.
/// Which ids they are depends on the moment of the call.
pub assume_specification[ starry_process::Process::threads ](
    node: &starry_process::Process,
) -> (tids: Vec<u32>)
    ensures
        is_ascending(tids@),
;

/// The id of a process.
pub uninterp spec fn process_id(process: Process) -> u32;

/// The id of a process: `starry_process::Process::pid` gives the number that
/// the process was made with, which never changes. It is named after that.
#[verifier::external_body]
fn pid_of(process: &Process) -> (pid: u32)
    ensures
        pid == process_id(*process),
{
    process.pid()
}

/// The parent that a process has at the moment of the call,
/// `starry_process::Process::parent`. Nothing is claimed of it.
pub assume_specification[ starry_process::Process::parent ](
    node: &starry_process::Process,
) -> (parent: Option<Arc<starry_process::Process>>);

/// Makes a child of a process: `starry_process::Process::fork` gives it the id
/// `pid`. That it becomes one of the children and joins the group of its parent
/// is not stated, since the tree is shared.
pub assume_specification[ starry_process::Process::fork ](
    under: &Arc<starry_process::Process>,
    pid: u32,
) -> (child: Arc<starry_process::Process>)
    ensures
        process_id(*child) == pid,
;

/// Enters a thread in the threads of a process,
/// `starry_process::Process::add_thread`. It has no result, and the tree that
/// it changes is shared, so nothing is claimed.
pub assume_specification[ starry_process::Process::add_thread ](
    node: &Arc<starry_process::Process>,
    tid: u32,
);

/// Gives a thread of a process another id,
/// `starry_process::Process::rename_thread`. It has no result, and the tree that
/// it changes is shared, so nothing is claimed.
pub assume_specification[ starry_process::Process::rename_thread ](
    node: &Arc<starry_process::Process>,
    old_tid: u32,
    new_tid: u32,
);

/// The group that a process belongs to at the moment of the call,
/// `starry_process::Process::group`. Nothing is claimed of it.
pub assume_specification[ starry_process::Process::group ](
    node: &starry_process::Process,
) -> (group: Arc<starry_process::ProcessGroup>);

/// The id of a group of processes.
pub uninterp spec fn group_id(group: ProcessGroup) -> u32;

/// The id of a group: `starry_process::ProcessGroup::pgid` gives the number
/// that the group was made with, which never changes. It is named after that.
pub assume_specification[ starry_process::ProcessGroup::pgid ](
    group: &starry_process::ProcessGroup,
) -> (pgid: u32)
    ensures
        pgid == group_id(*group),
;

/// Whether a process has terminated and waits to be reaped,
/// `starry_process::Process::is_zombie`. It depends on the moment of the call.
pub assume_specification[ starry_process::Process::is_zombie ](
    node: &starry_process::Process,
) -> (zombie: bool);

/// The exit code that a process has at the moment of the call,
/// `starry_process::Process::exit_code`. Nothing is claimed of the number.
pub assume_specification[ starry_process::Process::exit_code ](
    node: &starry_process::Process,
) -> (code: i32);

/// Removes a process from the children of its parent,
/// `starry_process::Process::free`. It panics unless the process has terminated;
/// one that was found so stays so. It has no result, and the tree that it
/// changes is shared, so nothing is claimed.
pub assume_specification[ starry_process::Process::free ](node: &starry_process::Process)
    requires
        call_ensures(starry_process::Process::is_zombie, (node,), true),
;

/// The ids of processes.
pub open spec fn process_ids(processes: Seq<Arc<Process>>) -> Seq<u32> {
    processes.map_values(|p: Arc<Process>| process_id(*p))
}

/// The children of a process: `starry_process::Process::children` lists the
/// values of a `BTreeMap` in which each child stands under its own id, so their
/// ids ascend and none occurs twice. Which children they are depends on the
/// moment of the call.
pub assume_specification[ starry_process::Process::children ](
    node: &starry_process::Process,
) -> (children: Vec<Arc<starry_process::Process>>)
    ensures
        is_ascending(process_ids(children@)),
;

/// What the system calls read of a process.
#[derive(Debug)]
pub struct ProcessNode {
    /// The process id.
    pub pid: u32,
    /// The id of its group.
    pub pgid: u32,
    /// The ids of its threads.
    pub threads: Vec<u32>,
    /// Whether it has terminated and waits to be reaped.
    pub zombie: bool,
    /// Its exit code, once it has terminated.
    pub exit_code: i32,
}

impl ProcessNode {
    /// This is a reading of `process`: its own id, the id of a group that it
    /// was found in, and the threads, the state and the exit code that it was
    /// found with. Each was read once; that all were so at one moment is not
    /// claimed.
    pub open spec fn is_reading_of(self, process: Process) -> bool {
        &&& self.pid == process_id(process)
        &&& exists|group: Arc<ProcessGroup>|
            #[trigger] call_ensures(Process::group, (&process,), group) && self.pgid == group_id(
                *group,
            )
        &&& call_ensures(Process::threads, (&process,), self.threads)
        &&& call_ensures(Process::is_zombie, (&process,), self.zombie)
        &&& call_ensures(Process::exit_code, (&process,), self.exit_code)
    }

    /// What is read of `process` now.
    pub fn of(process: &Process) -> (r: ProcessNode)
        ensures
            r.is_reading_of(*process),
            is_ascending(r.threads@),
    {
        let group = process.group();
        ProcessNode {
            pid: pid_of(process),
            pgid: group.pgid(),
            threads: process.threads(),
            zombie: process.is_zombie(),
            exit_code: process.exit_code(),
        }
    }
}

/// Removes `process` from the tree, if it has terminated; whether it has.
pub fn free_terminated(process: &Process) -> (r: bool)
    ensures
        call_ensures(Process::is_zombie, (process,), r),
        r ==> call_ensures(Process::free, (process,), ()),
{
    let terminated = process.is_zombie();
    if terminated {
        process.free();
    }
    terminated
}

/// The processes that `nodes` are about.
pub open spec fn subjects(nodes: Seq<(Arc<Process>, ProcessNode)>) -> Seq<Arc<Process>> {
    nodes.map_values(|n: (Arc<Process>, ProcessNode)| n.0)
}

/// Each of `processes`, in order, with what is read of it now.
pub fn nodes_of(processes: &Vec<Arc<Process>>) -> (r: Vec<(Arc<Process>, ProcessNode)>)
    ensures
        subjects(r@) == processes@,
        forall|i: int| 0 <= i < r@.len() ==> (#[trigger] r@[i]).1.is_reading_of(*r@[i].0),
        forall|i: int| 0 <= i < r@.len() ==> is_ascending((#[trigger] r@[i]).1.threads@),
{
    let mut nodes: Vec<(Arc<Process>, ProcessNode)> = Vec::new();
    let mut i: usize = 0;
    while i < processes.len()
        invariant
            i <= processes@.len(),
            nodes@.len() == i,
            forall|k: int| 0 <= k < i ==> (#[trigger] nodes@[k]).0 == processes@[k],
            forall|k: int| 0 <= k < i ==> (#[trigger] nodes@[k]).1.is_reading_of(*nodes@[k].0),
            forall|k: int| 0 <= k < i ==> is_ascending((#[trigger] nodes@[k]).1.threads@),
        decreases processes@.len() - i,
    {
        let process = processes[i].clone();
        let node = ProcessNode::of(&process);
        nodes.push((process, node));
        i = i + 1;
    }
    assert(subjects(nodes@) =~= processes@);
    nodes
}

/// The children of `process` now, each with what is read of it, by ascending
/// id. Which they are depends on the moment of the call: they are those of a
/// list that `starry_process::Process::children` gave, every one of them.
pub fn child_nodes(process: &Process) -> (r: Vec<(Arc<Process>, ProcessNode)>)
    ensures
        exists|children: Vec<Arc<Process>>|
            #[trigger] call_ensures(Process::children, (process,), children) && subjects(r@)
                == children@,
        forall|i: int| 0 <= i < r@.len() ==> (#[trigger] r@[i]).1.is_reading_of(*r@[i].0),
        forall|i: int| 0 <= i < r@.len() ==> is_ascending((#[trigger] r@[i]).1.threads@),
        forall|i: int, j: int| 0 <= i < j < r@.len() ==> r@[i].1.pid < r@[j].1.pid,
{
    let children = process.children();
    let r = nodes_of(&children);
    assert forall|i: int, j: int| 0 <= i < j < r@.len() implies r@[i].1.pid < r@[j].1.pid by {
        assert(subjects(r@)[i] == children@[i] && subjects(r@)[j] == children@[j]);
        assert(process_ids(children@)[i] < process_ids(children@)[j]);
    }
    r
}

/// What is read of a process is of that process, each part from its own place.
pub proof fn law_reading_is_of_the_process(process: &Process, r: ProcessNode)
    requires
        call_ensures(ProcessNode::of, (process,), r),
    ensures
        r.pid == process_id(*process),
        exists|group: Arc<ProcessGroup>|
            #[trigger] call_ensures(Process::group, (process,), group) && r.pgid == group_id(
                *group,
            ),
        call_ensures(Process::threads, (process,), r.threads),
        call_ensures(Process::is_zombie, (process,), r.zombie),
        call_ensures(Process::exit_code, (process,), r.exit_code),
{
}

/// A process is removed from the tree exactly if it was found to have terminated,
/// and that is what is told.
pub proof fn law_only_terminated_processes_are_removed(process: &Process, r: bool)
    requires
        call_ensures(free_terminated, (process,), r),
    ensures
        call_ensures(Process::is_zombie, (process,), r),
        r ==> call_ensures(Process::free, (process,), ()),
{
}

/// Every child is told once, by ascending id, with what was read of it.
pub proof fn law_every_child_is_told(process: &Process, r: Vec<(Arc<Process>, ProcessNode)>)
    requires
        call_ensures(child_nodes, (process,), r),
    ensures
        exists|children: Vec<Arc<Process>>|
            {
                &&& #[trigger] call_ensures(Process::children, (process,), children)
                &&& r@.len() == children@.len()
                &&& forall|i: int| 0 <= i < r@.len() ==> (#[trigger] r@[i]).0 == children@[i]
            },
        forall|i: int| 0 <= i < r@.len() ==> (#[trigger] r@[i]).1.pid == process_id(*r@[i].0),
        forall|i: int, j: int| 0 <= i < j < r@.len() ==> r@[i].1.pid < r@[j].1.pid,
{
    let children = choose|children: Vec<Arc<Process>>|
        #[trigger] call_ensures(Process::children, (process,), children) && subjects(r@)
            == children@;
    assert forall|i: int| 0 <= i < r@.len() implies (#[trigger] r@[i]).0 == children@[i] by {
        assert(subjects(r@)[i] == r@[i].0);
    }
}

/// Each process is told, in its order, with what was read of it.
pub proof fn law_every_process_is_read(
    processes: &Vec<Arc<Process>>,
    r: Vec<(Arc<Process>, ProcessNode)>,
)
    requires
        call_ensures(nodes_of, (processes,), r),
    ensures
        r@.len() == processes@.len(),
        forall|i: int|
            0 <= i < r@.len() ==> (#[trigger] r@[i]).0 == processes@[i] && r@[i].1.pid
                == process_id(*processes@[i]),
{
    assert(subjects(r@).len() == r@.len());
    assert forall|i: int| 0 <= i < r@.len() implies (#[trigger] r@[i]).0 == processes@[i] by {
        assert(subjects(r@)[i] == r@[i].0);
    }
}

} // verus!
