use kube_podlog::cli::{Cli, ColorByArg};
use kube_podlog::config::{Config, OutputMode};
use kube_podlog::errors::AppError;
use kube_podlog::shutdown::{exit_code_for, write_failure_reason, ShutdownReason};

fn base_cli() -> Cli {
    Cli {
        namespace: None,
        selector: "app=web".to_string(),
        dev: false,
        json: false,
        no_timestamps: false,
        no_color: false,
        color_by: ColorByArg::Pod,
        buffer: 1024,
        containers: Vec::new(),
        since_seconds: None,
        tail: None,
        reconnect_min_ms: 200,
        reconnect_max_ms: 5000,
        dev_rate_ms: 500,
        dev_lines: None,
    }
}

#[test]
fn config_fills_defaults() {
    let c = Config::try_from(base_cli(), true).unwrap();
    assert_eq!(c.namespace, "default");
    assert_eq!(c.selector, "app=web");
    assert!(matches!(c.output.mode, OutputMode::Human));
    assert!(c.output.human.timestamps);
    assert!(c.output.human.color);
    assert_eq!(c.buffer, 1024);
}

#[test]
fn color_is_off_when_stdout_is_not_a_terminal() {
    let c = Config::try_from(base_cli(), false).unwrap();
    assert!(!c.output.human.color);
}

#[test]
fn color_is_off_when_suppressed_even_on_a_terminal() {
    let mut cli = base_cli();
    cli.no_color = true;
    let c = Config::try_from(cli, true).unwrap();
    assert!(!c.output.human.color);
}

#[test]
fn json_flag_selects_json_mode() {
    let mut cli = base_cli();
    cli.json = true;
    let c = Config::try_from(cli, true).unwrap();
    assert!(matches!(c.output.mode, OutputMode::Json));
}

#[test]
fn explicit_namespace_is_kept() {
    let mut cli = base_cli();
    cli.namespace = Some("prod".to_string());
    let c = Config::try_from(cli, false).unwrap();
    assert_eq!(c.namespace, "prod");
}

#[test]
fn empty_selector_is_rejected() {
    let mut cli = base_cli();
    cli.selector = String::new();
    assert!(matches!(Config::try_from(cli, false), Err(AppError::Cli(_))));
}

#[test]
fn zero_buffer_is_rejected() {
    let mut cli = base_cli();
    cli.buffer = 0;
    assert!(matches!(Config::try_from(cli, false), Err(AppError::Cli(_))));
}

#[test]
fn bad_reconnect_bounds_are_rejected() {
    let mut cli = base_cli();
    cli.reconnect_min_ms = 0;
    assert!(matches!(Config::try_from(cli, false), Err(AppError::Cli(_))));

    let mut cli = base_cli();
    cli.reconnect_min_ms = 6000;
    cli.reconnect_max_ms = 5000;
    assert!(matches!(Config::try_from(cli, false), Err(AppError::Cli(_))));
}

#[test]
fn error_messages_carry_their_prefix() {
    assert_eq!(AppError::Cli("bad flag".to_string()).message(), "bad flag");
    assert_eq!(
        AppError::Kube("watch failed".to_string()).message(),
        "kubernetes error: watch failed"
    );
    assert_eq!(AppError::Io("pipe".to_string()).message(), "io error: pipe");
    assert_eq!(AppError::Json("eof".to_string()).message(), "json error: eof");
    assert_eq!(AppError::Other("x".to_string()).message(), "x");
}

#[test]
fn broken_pipe_exits_cleanly() {
    assert_eq!(write_failure_reason(true), ShutdownReason::OutputClosed);
    assert_eq!(exit_code_for(ShutdownReason::OutputClosed), 0);
}

#[test]
fn exit_codes_follow_the_reason() {
    assert_eq!(exit_code_for(ShutdownReason::CtrlC), 0);
    assert_eq!(exit_code_for(ShutdownReason::Sigterm), 0);
    assert_eq!(exit_code_for(ShutdownReason::WatcherEnded), 0);
    assert_eq!(exit_code_for(ShutdownReason::WatcherError), 1);
    assert_eq!(exit_code_for(ShutdownReason::OutputError), 1);
    assert_eq!(write_failure_reason(false), ShutdownReason::OutputError);
}
