//! The watchdog's error kinds.

use vstd::prelude::*;

verus! {

/// Everything that can go wrong in a watchdog cycle or while loading the
/// configuration. Duration parse errors are fatal at configuration time;
/// heartbeat read and write errors are logged and the loop continues; an
/// invalid shutdown command is reported when a shutdown is attempted and the
/// loop then resumes polling.
#[derive(Clone, Copy, Debug, PartialEq, Eq, Structural)]
pub enum WatchdogError {
    /// A duration string or the marker file's contents did not parse.
    ParseError,
    /// The marker file is missing or could not be read.
    HeartbeatUnavailable,
    /// The marker file could not be created or written.
    HeartbeatWriteError,
    /// The shutdown command string holds no tokens.
    ShutdownCommandInvalid,
}

impl WatchdogError {
    /// A human-readable line for the diagnostic stream.
    pub fn message(&self) -> (r: &'static str)
        ensures
            *self is ParseError ==> r@ == "failed to parse"@,
            *self is HeartbeatUnavailable ==> r@ == "failed to read heartbeat"@,
            *self is HeartbeatWriteError ==> r@ == "failed to init heartbeat"@,
            *self is ShutdownCommandInvalid ==> r@ == "failed to parse command"@,
    {
        match self {
            WatchdogError::ParseError => "failed to parse",
            WatchdogError::HeartbeatUnavailable => "failed to read heartbeat",
            WatchdogError::HeartbeatWriteError => "failed to init heartbeat",
            WatchdogError::ShutdownCommandInvalid => "failed to parse command",
        }
    }
}

} // verus!
