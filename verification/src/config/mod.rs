//! Configuration files.

pub mod loader;
pub mod migration;
