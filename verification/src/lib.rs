//! Verified core of the freezeit daemon.

pub mod app;
pub mod config;
pub mod domain;
pub mod laws;
pub mod protocol;
pub mod sys;
pub mod text;
