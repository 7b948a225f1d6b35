//! The session and sourcing engine of a launcher daemon: menu items and
//! their field extractor, the client line protocol, what the command runner
//! decides, the per-provider cache, and the coordinator that owns the
//! selection surface and answers each external session exactly once.
pub mod cache;
pub mod calc;
pub mod command;
pub mod config;
pub mod hotkey;
pub mod ipc;
pub mod json;
pub mod matcher;
pub mod paths;
pub mod providers;
pub mod registry;
pub mod session;
pub mod source;
