//! Forwarding rules and the states they run through.
pub mod host;
pub mod rule;
pub mod status;
pub mod validation;
