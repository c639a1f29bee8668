//! Decisions of the daemon.
pub mod lifecycle;
pub mod manager;
pub mod process;
pub mod reconnect;
pub mod recovery;
