//! The control loop: which processes are frozen, thawed or killed, and what is kept about them.

pub mod carry;
pub mod entry;
pub mod laws;
pub mod live;
pub mod pass;
pub mod port;
pub mod recovery;
pub mod rules;
pub mod saved;
pub mod startup;
pub mod state;
pub mod status;
pub mod system;
pub mod thaw;
pub mod transaction;
