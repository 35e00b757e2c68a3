use idle_watchdog::errors::WatchdogError;
use idle_watchdog::duration::parse_duration;

#[test]
fn parses_hours() {
    assert_eq!(parse_duration("2h"), Ok(7200));
    assert_eq!(parse_duration("3H"), Ok(10800));
    assert_eq!(parse_duration("1h"), Ok(3600));
}

#[test]
fn parses_minutes() {
    assert_eq!(parse_duration("5m"), Ok(300));
    assert_eq!(parse_duration("2M"), Ok(120));
    assert_eq!(parse_duration("1m"), Ok(60));
}

#[test]
fn parses_seconds() {
    assert_eq!(parse_duration("90s"), Ok(90));
    assert_eq!(parse_duration("7S"), Ok(7));
    assert_eq!(parse_duration("0s"), Ok(0));
}

#[test]
fn tolerates_surrounding_whitespace() {
    assert_eq!(parse_duration("  5m  "), Ok(300));
    assert_eq!(parse_duration("\t42s\n"), Ok(42));
    assert_eq!(parse_duration(" 1h"), Ok(3600));
    assert_eq!(parse_duration("1h "), Ok(3600));
}

#[test]
fn rejects_non_matching_strings() {
    assert_eq!(parse_duration("abc"), Err(WatchdogError::ParseError));
    assert_eq!(parse_duration("5"), Err(WatchdogError::ParseError));
    assert_eq!(parse_duration("5x"), Err(WatchdogError::ParseError));
    assert_eq!(parse_duration(""), Err(WatchdogError::ParseError));
    assert_eq!(parse_duration("   "), Err(WatchdogError::ParseError));
    assert_eq!(parse_duration("h"), Err(WatchdogError::ParseError));
    assert_eq!(parse_duration("-5s"), Err(WatchdogError::ParseError));
    assert_eq!(parse_duration("5 m"), Err(WatchdogError::ParseError));
}

#[test]
fn rejects_multi_unit_composites() {
    assert_eq!(parse_duration("1h30m"), Err(WatchdogError::ParseError));
    assert_eq!(parse_duration("1m30"), Err(WatchdogError::ParseError));
}

#[test]
fn rejects_values_too_large_for_u64() {
    // One more than u64::MAX seconds.
    assert_eq!(
        parse_duration("18446744073709551616s"),
        Err(WatchdogError::ParseError)
    );
    // The digits fit u64, but times 3600 they overflow.
    assert_eq!(
        parse_duration("18446744073709551615h"),
        Err(WatchdogError::ParseError)
    );
}

#[test]
fn accepts_the_largest_representable_durations() {
    assert_eq!(parse_duration("18446744073709551615s"), Ok(u64::MAX));
    // 5124095576030431 * 3600 == 18446744073709551600.
    assert_eq!(parse_duration("5124095576030431h"), Ok(18446744073709551600));
}
