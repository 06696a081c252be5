//! Wire formats of the manager and of the system hook.

pub mod bytes;
pub mod json;
pub mod manager_v1;
pub mod manager_v2;
pub mod records;
pub mod xposed;
