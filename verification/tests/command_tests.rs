use idle_watchdog::command::parse_command;
use idle_watchdog::errors::WatchdogError;
use idle_watchdog::watchdog::plan_shutdown;

#[test]
fn splits_program_and_arguments() {
    let c = parse_command("shutdown -h now").unwrap();
    assert_eq!(c.program, "shutdown");
    assert_eq!(c.args, vec!["-h".to_string(), "now".to_string()]);
}

#[test]
fn single_token_has_no_arguments() {
    let c = parse_command("poweroff").unwrap();
    assert_eq!(c.program, "poweroff");
    assert!(c.args.is_empty());
}

#[test]
fn collapses_runs_of_whitespace() {
    let c = parse_command("  a \t b\n\nc  ").unwrap();
    assert_eq!(c.program, "a");
    assert_eq!(c.args, vec!["b".to_string(), "c".to_string()]);
}

#[test]
fn empty_or_all_whitespace_yields_no_command() {
    assert!(parse_command("").is_none());
    assert!(parse_command("   ").is_none());
    assert!(parse_command(" \t\n ").is_none());
}

#[test]
fn planning_a_shutdown_reports_an_invalid_command() {
    let c = plan_shutdown("shutdown -h now").unwrap();
    assert_eq!(c.program, "shutdown");
    assert_eq!(c.args, vec!["-h".to_string(), "now".to_string()]);
    assert_eq!(
        plan_shutdown("").unwrap_err(),
        WatchdogError::ShutdownCommandInvalid
    );
    assert_eq!(
        plan_shutdown(" \t ").unwrap_err(),
        WatchdogError::ShutdownCommandInvalid
    );
}
