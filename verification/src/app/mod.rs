//! Decisions of the daemon.

pub mod command_runner;
pub mod compatibility;
pub mod controller;
pub mod download_deferral;
pub mod error;
pub mod freezer_backend;
pub mod health;
pub mod logging;
pub mod operation_log;
pub mod package_inventory;
pub mod scheduler;
