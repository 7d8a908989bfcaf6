use tuxfans::cli::{
    check_mark, cmd_config, cmd_daemon, cmd_profile, cmd_test, device_check, ec_control_label,
    escape_exec_path, parse_command, service_unit, Command, ConfigCommand, DaemonCommand,
    DeviceCheck, ProfileCommand,
};
use tuxfans::config::ControlMode;

fn args(words: &[&str]) -> Vec<String> {
    words.iter().map(|w| w.to_string()).collect()
}

#[test]
fn commands_are_parsed_from_the_first_argument() {
    assert_eq!(parse_command(&args(&["tuxfans"])), Command::Usage);
    assert_eq!(parse_command(&args(&["tuxfans", "onboard"])), Command::Onboard);
    assert_eq!(parse_command(&args(&["tuxfans", "status"])), Command::Status);
    assert_eq!(parse_command(&args(&["tuxfans", "profile", "quiet"])), Command::Profile);
    assert_eq!(parse_command(&args(&["tuxfans", "config"])), Command::Config);
    assert_eq!(parse_command(&args(&["tuxfans", "daemon"])), Command::Daemon);
    assert_eq!(parse_command(&args(&["tuxfans", "daemon-run"])), Command::DaemonRun);
    assert_eq!(parse_command(&args(&["tuxfans", "test", "50"])), Command::Test);
    assert_eq!(parse_command(&args(&["tuxfans", "Status"])), Command::Usage);
    assert_eq!(parse_command(&args(&["tuxfans", ""])), Command::Usage);
}

#[test]
fn device_checks_per_command() {
    assert_eq!(device_check(Command::Status), DeviceCheck::Warn);
    assert_eq!(device_check(Command::Profile), DeviceCheck::Warn);
    assert_eq!(device_check(Command::Usage), DeviceCheck::Warn);
    assert_eq!(device_check(Command::DaemonRun), DeviceCheck::Required);
    assert_eq!(device_check(Command::Test), DeviceCheck::Required);
    assert_eq!(device_check(Command::Onboard), DeviceCheck::Skip);
    assert_eq!(device_check(Command::Config), DeviceCheck::Skip);
    assert_eq!(device_check(Command::Daemon), DeviceCheck::Skip);
}

#[test]
fn daemon_subcommands() {
    assert_eq!(cmd_daemon(&args(&["tuxfans", "daemon", "start"])), DaemonCommand::Start);
    assert_eq!(cmd_daemon(&args(&["tuxfans", "daemon", "stop"])), DaemonCommand::Stop);
    assert_eq!(cmd_daemon(&args(&["tuxfans", "daemon", "status"])), DaemonCommand::Status);
    assert_eq!(cmd_daemon(&args(&["tuxfans", "daemon"])), DaemonCommand::Status);
    assert_eq!(cmd_daemon(&args(&["tuxfans", "daemon", "restart"])), DaemonCommand::Status);
}

#[test]
fn profile_names() {
    assert_eq!(cmd_profile(&args(&["tuxfans", "profile"])), ProfileCommand::Show);
    assert_eq!(
        cmd_profile(&args(&["tuxfans", "profile", "quiet"])),
        ProfileCommand::Apply(ControlMode::Quiet)
    );
    assert_eq!(
        cmd_profile(&args(&["tuxfans", "profile", "Performance"])),
        ProfileCommand::Apply(ControlMode::Performance)
    );
    assert_eq!(
        cmd_profile(&args(&["tuxfans", "profile", "overboost"])),
        ProfileCommand::Apply(ControlMode::Overboost)
    );
    assert_eq!(
        cmd_profile(&args(&["tuxfans", "profile", "Custom"])),
        ProfileCommand::Apply(ControlMode::Custom)
    );
    assert_eq!(cmd_profile(&args(&["tuxfans", "profile", "QUIET"])), ProfileCommand::Unknown);
}

#[test]
fn config_subcommands() {
    assert_eq!(cmd_config(&args(&["tuxfans", "config"])), ConfigCommand::Show);
    assert_eq!(cmd_config(&args(&["tuxfans", "config", "reset"])), ConfigCommand::Reset);
    assert_eq!(cmd_config(&args(&["tuxfans", "config", "show"])), ConfigCommand::Unknown);
}

#[test]
fn fan_test_settings() {
    assert_eq!(cmd_test(None, None), (100, 10));
    assert_eq!(cmd_test(Some(40), Some(3)), (40, 3));
    assert_eq!(cmd_test(Some(101), Some(0)), (100, 10));
    assert_eq!(cmd_test(Some(0), None), (0, 10));
}

#[test]
fn marks_and_labels() {
    assert_eq!(check_mark(true), "✓");
    assert_eq!(check_mark(false), "✗");
    assert_eq!(ec_control_label(Some(true)), "auto");
    assert_eq!(ec_control_label(Some(false)), "manual");
    assert_eq!(ec_control_label(None), "--");
}

#[test]
fn service_unit_runs_the_daemon() {
    let unit = service_unit("/usr/local/bin/tuxfans");
    assert_eq!(
        unit,
        "[Unit]\nDescription=tuxfans fan curve daemon\nAfter=multi-user.target\n\n[Service]\nType=simple\nExecStart=\"/usr/local/bin/tuxfans\" daemon-run\nRestart=on-failure\nRestartSec=5\n\n[Install]\nWantedBy=default.target\n"
    );
}

#[test]
fn exec_path_escaping() {
    assert_eq!(escape_exec_path("/usr/bin/tuxfans"), "/usr/bin/tuxfans");
    assert_eq!(escape_exec_path("C:\\bin\\a\"b"), "C:\\\\bin\\\\a\\\"b");
    assert_eq!(escape_exec_path("/home/zoë/tux fans"), "/home/zoë/tux fans");
    assert_eq!(escape_exec_path(""), "");
}
