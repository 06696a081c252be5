//! Processes as they are observed on the device.

use vstd::prelude::*;

use crate::text::copy;

verus! {

/// The scheduling class of a process.
#[derive(Debug, Clone, Copy, PartialEq, Eq, Structural)]
pub enum ProcessState {
    Cached,
    Unknown,
}

/// What is known about the control of a process.
#[derive(Debug, Clone, Copy, PartialEq, Eq, Structural)]
pub enum ControlState {
    Running,
    PendingFreeze,
    Frozen,
    Unknown,
}

/// One observed process.
#[derive(Debug, PartialEq, Eq)]
pub struct RuntimeProcess {
    pub pid: i32,
    pub uid: u32,
    pub package_name: String,
    pub process_name: String,
    pub proc_state: ProcessState,
    pub control_state: ControlState,
    pub cgroup_freeze_path: Option<String>,
    pub binder_state: Option<String>,
    pub start_time_ticks: Option<u64>,
    pub last_seen_at_ms: u128,
}

/// An observed process as a value.
#[verifier::ext_equal]
pub ghost struct ProcessView {
    pub pid: i32,
    pub uid: u32,
    pub package_name: Seq<char>,
    pub process_name: Seq<char>,
    pub proc_state: ProcessState,
    pub control_state: ControlState,
    pub cgroup_freeze_path: Option<Seq<char>>,
    pub binder_state: Option<Seq<char>>,
    pub start_time_ticks: Option<u64>,
    pub last_seen_at_ms: u128,
}

/// The characters of an optional string.
pub open spec fn optional_text(o: Option<String>) -> Option<Seq<char>> {
    match o {
        Some(s) => Some(s@),
        None => None,
    }
}

/// A copy of an optional string.
pub fn copy_optional(o: &Option<String>) -> (r: Option<String>)
    ensures
        optional_text(r) == optional_text(*o),
{
    match o {
        Some(s) => Some(copy(s.as_str())),
        None => None,
    }
}

impl View for RuntimeProcess {
    type V = ProcessView;

    open spec fn view(&self) -> ProcessView {
        ProcessView {
            pid: self.pid,
            uid: self.uid,
            package_name: self.package_name@,
            process_name: self.process_name@,
            proc_state: self.proc_state,
            control_state: self.control_state,
            cgroup_freeze_path: optional_text(self.cgroup_freeze_path),
            binder_state: optional_text(self.binder_state),
            start_time_ticks: self.start_time_ticks,
            last_seen_at_ms: self.last_seen_at_ms,
        }
    }
}

impl Clone for RuntimeProcess {
    fn clone(&self) -> (r: Self)
        ensures
            r@ == self@,
    {
        RuntimeProcess {
            pid: self.pid,
            uid: self.uid,
            package_name: copy(self.package_name.as_str()),
            process_name: copy(self.process_name.as_str()),
            proc_state: self.proc_state,
            control_state: self.control_state,
            cgroup_freeze_path: copy_optional(&self.cgroup_freeze_path),
            binder_state: copy_optional(&self.binder_state),
            start_time_ticks: self.start_time_ticks,
            last_seen_at_ms: self.last_seen_at_ms,
        }
    }
}

/// The views of a list of processes.
pub open spec fn process_views(s: Seq<RuntimeProcess>) -> Seq<ProcessView> {
    s.map_values(|p: RuntimeProcess| p@)
}

/// The process with another control state.
pub open spec fn with_control_state(p: ProcessView, state: ControlState) -> ProcessView {
    ProcessView { control_state: state, ..p }
}

/// The processes with another control state.
pub open spec fn all_with_control_state(s: Seq<ProcessView>, state: ControlState) -> Seq<
    ProcessView,
> {
    s.map_values(|p: ProcessView| with_control_state(p, state))
}

/// The ids of the processes.
pub open spec fn pids(s: Seq<ProcessView>) -> Seq<i32> {
    s.map_values(|p: ProcessView| p.pid)
}

/// The ids of the processes, in order.
pub fn process_ids(processes: &[RuntimeProcess]) -> (r: Vec<i32>)
    ensures
        r@ == pids(process_views(processes@)),
{
    let mut out: Vec<i32> = Vec::new();
    let mut i: usize = 0;
    while i < processes.len()
        invariant
            i <= processes@.len(),
            out@ == pids(process_views(processes@)).take(i as int),
        decreases processes@.len() - i,
    {
        out.push(processes[i].pid);
        assert(out@ =~= pids(process_views(processes@)).take(i + 1));
        i += 1;
    }
    assert(pids(process_views(processes@)).take(i as int) =~= pids(process_views(processes@)));
    out
}

/// Copies of the processes, all with the given control state.
pub fn copy_with_control_state(processes: &[RuntimeProcess], state: ControlState) -> (r: Vec<
    RuntimeProcess,
>)
    ensures
        process_views(r@) == all_with_control_state(process_views(processes@), state),
        r@.len() == processes@.len(),
{
    let mut out: Vec<RuntimeProcess> = Vec::new();
    let mut i: usize = 0;
    while i < processes.len()
        invariant
            i <= processes@.len(),
            out@.len() == i,
            process_views(out@) == all_with_control_state(process_views(processes@), state).take(
                i as int,
            ),
        decreases processes@.len() - i,
    {
        let mut p = processes[i].clone();
        p.control_state = state;
        out.push(p);
        assert(process_views(out@) =~= all_with_control_state(
            process_views(processes@),
            state,
        ).take(i + 1));
        i += 1;
    }
    assert(all_with_control_state(process_views(processes@), state).take(i as int)
        =~= all_with_control_state(process_views(processes@), state));
    out
}

/// Sets the control state of every process.
pub fn set_control_states(processes: &mut Vec<RuntimeProcess>, state: ControlState)
    ensures
        process_views(final(processes)@) == all_with_control_state(
            process_views(old(processes)@),
            state,
        ),
{
    let updated = copy_with_control_state(processes.as_slice(), state);
    *processes = updated;
}

} // verus!
