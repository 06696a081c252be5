//! The record of one control operation.

use vstd::prelude::*;

use crate::text::copy;

verus! {

/// What an operation did or tried to do.
#[derive(Debug, Clone, Copy, PartialEq, Eq, Structural)]
pub enum ControlAction {
    Freeze,
    Unfreeze,
    Postpone,
    Fallback,
    Terminate,
    Skip,
    Recover,
}

/// How an operation ended.
#[derive(Debug, Clone, Copy, PartialEq, Eq, Structural)]
pub enum OperationResult {
    Success,
    Partial,
    Failed,
    Skipped,
    Postponed,
}

/// One control operation as it is logged.
#[derive(Debug, PartialEq, Eq)]
pub struct ControlOperation {
    pub operation_id: u64,
    pub timestamp_ms: u128,
    pub package_name: String,
    pub uid: u32,
    pub pid_list: Vec<i32>,
    pub action: ControlAction,
    pub backend: String,
    pub reason: String,
    pub result: OperationResult,
    pub details: String,
}

/// An operation as a value.
#[verifier::ext_equal]
pub ghost struct OperationView {
    pub operation_id: u64,
    pub timestamp_ms: u128,
    pub package_name: Seq<char>,
    pub uid: u32,
    pub pid_list: Seq<i32>,
    pub action: ControlAction,
    pub backend: Seq<char>,
    pub reason: Seq<char>,
    pub result: OperationResult,
    pub details: Seq<char>,
}

impl View for ControlOperation {
    type V = OperationView;

    open spec fn view(&self) -> OperationView {
        OperationView {
            operation_id: self.operation_id,
            timestamp_ms: self.timestamp_ms,
            package_name: self.package_name@,
            uid: self.uid,
            pid_list: self.pid_list@,
            action: self.action,
            backend: self.backend@,
            reason: self.reason@,
            result: self.result,
            details: self.details@,
        }
    }
}

/// A copy of a list of process ids.
pub fn copy_pids(pids: &[i32]) -> (r: Vec<i32>)
    ensures
        r@ == pids@,
{
    let mut out: Vec<i32> = Vec::new();
    let mut i: usize = 0;
    while i < pids.len()
        invariant
            i <= pids@.len(),
            out@ == pids@.take(i as int),
        decreases pids@.len() - i,
    {
        out.push(pids[i]);
        assert(pids@.take(i + 1) =~= pids@.take(i as int).push(pids@[i as int]));
        i += 1;
    }
    assert(pids@.take(i as int) =~= pids@);
    out
}

impl Clone for ControlOperation {
    fn clone(&self) -> (r: Self)
        ensures
            r@ == self@,
    {
        ControlOperation {
            operation_id: self.operation_id,
            timestamp_ms: self.timestamp_ms,
            package_name: copy(self.package_name.as_str()),
            uid: self.uid,
            pid_list: copy_pids(self.pid_list.as_slice()),
            action: self.action,
            backend: copy(self.backend.as_str()),
            reason: copy(self.reason.as_str()),
            result: self.result,
            details: copy(self.details.as_str()),
        }
    }
}

/// The views of a list of operations.
pub open spec fn operation_views(s: Seq<ControlOperation>) -> Seq<OperationView> {
    s.map_values(|o: ControlOperation| o@)
}

} // verus!
