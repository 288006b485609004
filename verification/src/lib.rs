//! Watches for a target process and, while it runs, keeps the host's
//! secondary displays disabled, restoring them when the process exits.
//!
//! This crate holds the verified core: decoding display-device records,
//! the configuration store, the orchestrator state machine that decides
//! which displays to disable and restore, and the presence watcher's
//! edge detection. The operating-system calls themselves (display
//! enumeration, mode changes, process listing, file I/O, the tray UI)
//! are left to the surrounding program, which feeds their results in as
//! plain values.

pub mod config;
pub mod display;
pub mod laws;
pub mod monitor;
pub mod store;
pub mod watcher;
