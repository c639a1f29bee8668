//! Use cases on SSH hosts and their configuration.
pub mod hosts;
pub mod import;
