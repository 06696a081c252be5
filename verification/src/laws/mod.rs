//! Laws that hold of the library as a whole, stated of what goes in and what comes out.

pub mod configuration;
pub mod decisions;
pub mod device;
pub mod discovery;
pub mod health_text;
pub mod live_view;
pub mod manager;
pub mod modes;
pub mod readings;
pub mod records;
pub mod release;
pub mod restart;
pub mod status;
pub mod transactions;
pub mod waiting;
