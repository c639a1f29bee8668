//! TunnelDeck: the rules, parsers and state machines behind an SSH port-forwarding manager.
pub mod address;
pub mod application;
pub mod cli;
pub mod config;
pub mod daemon;
pub mod domain;
pub mod error;
pub mod identity;
pub mod ipc;
pub mod logging;
pub mod path;
pub mod platform;
pub mod text;
pub mod tui;
