//! Vocabulary of the daemon: applications, policies, processes, operations.

pub mod capability;
pub mod identity;
pub mod json_text;
pub mod operation;
pub mod ordered;
pub mod policy;
pub mod runtime;
pub mod uids;
