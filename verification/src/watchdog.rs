//! The watchdog's configuration and the per-cycle decision: compare the
//! heartbeat reading against the grace deadline and choose what the cycle
//! does next. The loop around it — reading the marker file, writing it,
//! sleeping, replacing the process image — is I/O and lives outside this
//! crate; it feeds each cycle's reading and clock in and carries the decided
//! action out.

use crate::chars::{dec_repr, digits_value};
use crate::command::{parse_command, split_ws, CommandLine};
use crate::duration::{duration_secs, parse_duration, valid_duration};
use crate::errors::WatchdogError;
use crate::heartbeat::{lemma_marker_round_trip, valid_marker};
use vstd::prelude::*;

verus! {

/// The immutable configuration, loaded once at startup. Durations are in
/// whole seconds; the marker path and the shutdown command are kept as the
/// strings the collaborating option parser supplied.
#[derive(Debug)]
pub struct Config {
    pub heartbeat_path: String,
    pub check_interval: u64,
    pub grace_duration: u64,
    pub shutdown_command: String,
}

impl Config {
    /// The configuration invariant: the check interval is positive, so the
    /// loop never spins without sleeping.
    pub open spec fn wf(&self) -> bool {
        self.check_interval >= 1
    }

    /// Build a configuration from the two duration strings and the two
    /// plain strings. A malformed or oversized duration, or a zero check
    /// interval, is fatal at configuration time: the watchdog must not
    /// start on it.
    pub fn from_strings(
        heartbeat_path: String,
        check_interval: &str,
        grace_duration: &str,
        shutdown_command: String,
    ) -> (r: Result<Config, WatchdogError>)
        ensures
            r is Ok <==> {
                &&& valid_duration(check_interval@)
                &&& duration_secs(check_interval@) <= u64::MAX
                &&& duration_secs(check_interval@) >= 1
                &&& valid_duration(grace_duration@)
                &&& duration_secs(grace_duration@) <= u64::MAX
            },
            r matches Ok(c) ==> {
                &&& c.heartbeat_path == heartbeat_path
                &&& c.check_interval == duration_secs(check_interval@)
                &&& c.grace_duration == duration_secs(grace_duration@)
                &&& c.shutdown_command == shutdown_command
                &&& c.wf()
            },
            r is Err ==> r == Err::<Config, WatchdogError>(WatchdogError::ParseError),
    {
        let interval = match parse_duration(check_interval) {
            Ok(v) => v,
            Err(e) => {
                return Err(e);
            },
        };
        if interval == 0 {
            return Err(WatchdogError::ParseError);
        }
        let grace = match parse_duration(grace_duration) {
            Ok(v) => v,
            Err(e) => {
                return Err(e);
            },
        };
        Ok(
            Config {
                heartbeat_path,
                check_interval: interval,
                grace_duration: grace,
                shutdown_command,
            },
        )
    }
}

/// What one poll cycle decides to do.
#[derive(Clone, Copy, Debug, PartialEq, Eq, Structural)]
pub enum CycleAction {
    /// The marker is stale: invoke the shutdown command. Irrevocable — the
    /// process image is replaced and the loop never resumes.
    Shutdown,
    /// The marker could not be read: log the failure, recreate the marker
    /// with the current time as the new baseline, then sleep and re-check.
    Reinitialize,
    /// The marker is within the grace window: no action, sleep for the
    /// check interval and re-check.
    Sleep,
}

/// The decision of one poll cycle: `reading` is the timestamp read from the
/// marker (`None` when the marker is missing, unreadable or unparseable),
/// `now` the current Unix time, `grace` the grace duration, all in seconds.
/// Shutdown is due exactly when the reading succeeded and its deadline —
/// the timestamp plus the grace duration — lies strictly in the past.
pub open spec fn cycle_action(reading: Option<u64>, now: u64, grace: u64) -> CycleAction {
    match reading {
        Some(t) => {
            if now > t + grace {
                CycleAction::Shutdown
            } else {
                CycleAction::Sleep
            }
        },
        None => CycleAction::Reinitialize,
    }
}

/// Decide one poll cycle (the comparison step of the loop): exactly the
/// action `cycle_action` prescribes for this reading, clock and grace
/// duration.
pub fn check_heartbeat(reading: Option<u64>, now: u64, grace: u64) -> (a: CycleAction)
    ensures
        a == cycle_action(reading, now, grace),
{
    match reading {
        Some(t) => {
            let deadline = if t > u64::MAX - grace {
                u64::MAX
            } else {
                t + grace
            };
            if now > deadline {
                CycleAction::Shutdown
            } else {
                CycleAction::Sleep
            }
        },
        None => CycleAction::Reinitialize,
    }
}

/// Parse the shutdown command when a shutdown is due. An empty or
/// all-whitespace command string is a configuration error reported at
/// shutdown time: it yields no runnable command, no process is launched,
/// and the recommended resolution is to log the error and resume polling.
pub fn plan_shutdown(shutdown_command: &str) -> (r: Result<CommandLine, WatchdogError>)
    ensures
        r is Ok <==> split_ws(shutdown_command@).len() > 0,
        r matches Ok(c) ==> c@ == split_ws(shutdown_command@),
        r is Err ==> r == Err::<CommandLine, WatchdogError>(WatchdogError::ShutdownCommandInvalid),
{
    match parse_command(shutdown_command) {
        Some(c) => Ok(c),
        None => Err(WatchdogError::ShutdownCommandInvalid),
    }
}

/// A failed read reinitializes rather than shuts down, and the recovery
/// works: the marker the initializer then writes (the current time,
/// rendered) reads back as exactly that time, so a later cycle that runs
/// within the grace window takes no shutdown action and goes back to sleep.
pub proof fn lemma_startup_recovery(now: u64, later: u64, grace: u64)
    requires
        now <= later <= now + grace,
    ensures
        cycle_action(None, now, grace) is Reinitialize,
        valid_marker(dec_repr(now as nat)),
        digits_value(dec_repr(now as nat)) == now,
        cycle_action(Some(now), later, grace) is Sleep,
{
    lemma_marker_round_trip(now);
}

/// Idempotence of a refreshed heartbeat: over any number of cycles, if each
/// cycle's observed timestamp is within the grace window of that cycle's
/// clock, no cycle ever decides to shut down — every one goes back to sleep.
/// Each cycle is given as the pair of its observed timestamp and its clock.
pub proof fn lemma_refreshed_marker_never_shuts_down(cycles: Seq<(u64, u64)>, grace: u64)
    requires
        forall|i: int| 0 <= i < cycles.len() ==> (#[trigger] cycles[i]).1 <= cycles[i].0 + grace,
    ensures
        forall|i: int|
            0 <= i < cycles.len() ==> cycle_action(
                Some((#[trigger] cycles[i]).0),
                cycles[i].1,
                grace,
            ) == CycleAction::Sleep,
{
}

} // verus!
