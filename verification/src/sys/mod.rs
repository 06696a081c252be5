//! Decisions about kernel facilities.

pub mod binder;
pub mod cgroup;
pub mod discovery;
pub mod freezer;
pub mod hook;
pub mod ledger;
pub mod paths;
pub mod procfs;
pub mod signal;
pub mod socket;
pub mod transfer;
pub mod xposed_bridge;
