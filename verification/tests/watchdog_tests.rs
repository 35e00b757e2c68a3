use idle_watchdog::errors::WatchdogError;
use idle_watchdog::heartbeat::{parse_heartbeat, render_heartbeat};
use idle_watchdog::watchdog::{check_heartbeat, Config, CycleAction};

#[test]
fn stale_marker_triggers_shutdown() {
    // Timestamp older than (now - grace): deadline 150 lies before now 200.
    assert_eq!(check_heartbeat(Some(100), 200, 50), CycleAction::Shutdown);
}

#[test]
fn fresh_marker_sleeps() {
    assert_eq!(check_heartbeat(Some(100), 120, 50), CycleAction::Sleep);
    // The deadline itself is still within the window.
    assert_eq!(check_heartbeat(Some(100), 150, 50), CycleAction::Sleep);
    // One second past the deadline is stale.
    assert_eq!(check_heartbeat(Some(100), 151, 50), CycleAction::Shutdown);
}

#[test]
fn failed_read_reinitializes() {
    assert_eq!(check_heartbeat(None, 200, 50), CycleAction::Reinitialize);
}

#[test]
fn deadline_past_the_end_of_time_never_shuts_down() {
    assert_eq!(
        check_heartbeat(Some(u64::MAX - 5), u64::MAX, 10),
        CycleAction::Sleep
    );
    assert_eq!(check_heartbeat(Some(u64::MAX), u64::MAX, 0), CycleAction::Sleep);
}

#[test]
fn absent_marker_then_fresh_baseline() {
    // First cycle: the marker cannot be read; the cycle reinitializes it.
    let now = 1700000000u64;
    assert_eq!(check_heartbeat(None, now, 300), CycleAction::Reinitialize);
    // The initializer writes the current time; a later cycle inside the
    // grace window reads it back and takes no shutdown action.
    let marker = render_heartbeat(now);
    let reading = parse_heartbeat(&marker).unwrap();
    assert_eq!(reading, now);
    assert_eq!(
        check_heartbeat(Some(reading), now + 60, 300),
        CycleAction::Sleep
    );
}

#[test]
fn continuously_refreshed_marker_never_shuts_down() {
    let grace = 300u64;
    let mut ts = 1700000000u64;
    for cycle in 0..1000u64 {
        // The producer refreshes the marker each cycle; every reading stays
        // within the grace window of that cycle's clock.
        let now = ts + (cycle % grace);
        assert_eq!(check_heartbeat(Some(ts), now, grace), CycleAction::Sleep);
        ts = now;
    }
}

#[test]
fn configuration_is_built_from_duration_strings() {
    let c = Config::from_strings(
        "/run/last_heartbeat".to_string(),
        "1m",
        "5m",
        "poweroff".to_string(),
    )
    .unwrap();
    assert_eq!(c.heartbeat_path, "/run/last_heartbeat");
    assert_eq!(c.check_interval, 60);
    assert_eq!(c.grace_duration, 300);
    assert_eq!(c.shutdown_command, "poweroff");
}

#[test]
fn bad_configuration_is_fatal() {
    let bad_interval = Config::from_strings(
        "p".to_string(),
        "abc",
        "5m",
        "poweroff".to_string(),
    );
    assert_eq!(bad_interval.unwrap_err(), WatchdogError::ParseError);

    let zero_interval =
        Config::from_strings("p".to_string(), "0s", "5m", "poweroff".to_string());
    assert_eq!(zero_interval.unwrap_err(), WatchdogError::ParseError);

    let bad_grace =
        Config::from_strings("p".to_string(), "1m", "5x", "poweroff".to_string());
    assert_eq!(bad_grace.unwrap_err(), WatchdogError::ParseError);
}

#[test]
fn error_messages_name_the_failure() {
    assert_eq!(WatchdogError::ParseError.message(), "failed to parse");
    assert_eq!(
        WatchdogError::HeartbeatUnavailable.message(),
        "failed to read heartbeat"
    );
    assert_eq!(
        WatchdogError::HeartbeatWriteError.message(),
        "failed to init heartbeat"
    );
    assert_eq!(
        WatchdogError::ShutdownCommandInvalid.message(),
        "failed to parse command"
    );
}
