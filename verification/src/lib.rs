//! Inactivity watchdog core: duration parsing, heartbeat marker encoding,
//! shutdown-command splitting, and the per-cycle freshness decision.
//!
//! All I/O (reading and creating the marker file, sleeping, replacing the
//! process image) lives outside this crate; the functions here work on plain
//! values and carry full functional contracts.

pub mod chars;
pub mod command;
pub mod duration;
pub mod errors;
pub mod heartbeat;
pub mod watchdog;
