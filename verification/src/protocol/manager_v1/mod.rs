//! The first version of the manager protocol.

pub mod app_config;
pub mod chart;
pub mod frame;
pub mod handle;
pub mod labels;
pub mod persistence;
pub mod port;
pub mod realtime;
pub mod state;
pub mod uid_time;
pub mod update;
