//! The records that the manager exchanges with the daemon.

use vstd::prelude::*;

verus! {

/// The configuration of one application.
#[derive(Debug, Clone, Copy, PartialEq, Eq, Structural)]
pub struct ManagerAppConfigRecord {
    pub uid: u32,
    pub mode: i32,
    pub permissive: bool,
}

/// The freeze status of one application.
#[derive(Debug, Clone, Copy, PartialEq, Eq, Structural)]
pub struct ManagerFreezeStatusRecord {
    pub uid: u32,
    pub foreground: bool,
    pub state: i32,
    pub seconds: i32,
    pub process_count: i32,
}

} // verus!
