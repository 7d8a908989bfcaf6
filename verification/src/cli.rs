use vstd::prelude::*;

use crate::config::{mode_label, ControlMode};

verus! {

/// Whether argument `i` is present and reads `word`.
pub open spec fn arg_is(args: Seq<String>, i: int, word: &str) -> bool {
    0 <= i < args.len() && args[i]@ == word@
}

fn arg_equals(args: &[String], i: usize, word: &str) -> (r: bool)
    ensures
        r == arg_is(args@, i as int, word),
{
    if i < args.len() {
        let w = word.to_owned();
        args[i] == w
    } else {
        false
    }
}

/// The subcommands of the program.
#[derive(Debug, Clone, Copy, PartialEq, Eq, Structural)]
pub enum Command {
    Usage,
    Onboard,
    Status,
    Profile,
    Config,
    Daemon,
    DaemonRun,
    Test,
}

/// The subcommand named by the first argument after the program name;
/// none or an unknown one asks for the usage text.
pub open spec fn command_of(args: Seq<String>) -> Command {
    if arg_is(args, 1, "onboard") {
        Command::Onboard
    } else if arg_is(args, 1, "status") {
        Command::Status
    } else if arg_is(args, 1, "profile") {
        Command::Profile
    } else if arg_is(args, 1, "config") {
        Command::Config
    } else if arg_is(args, 1, "daemon") {
        Command::Daemon
    } else if arg_is(args, 1, "daemon-run") {
        Command::DaemonRun
    } else if arg_is(args, 1, "test") {
        Command::Test
    } else {
        Command::Usage
    }
}

/// The subcommand depends on the first argument after the program name
/// alone: whatever follows it (`daemon start`, `profile quiet`, ...) does
/// not change it, and each subcommand's name selects it.
pub proof fn law_command_from_first_argument(args: Seq<String>, other: Seq<String>)
    requires
        args.len() >= 2,
        other.len() >= 2,
        args[1]@ == other[1]@,
    ensures
        command_of(args) == command_of(other),
        command_of(args) == command_of(args.take(2)),
        args[1]@ == "onboard"@ ==> command_of(args) == Command::Onboard,
        args[1]@ == "status"@ ==> command_of(args) == Command::Status,
        args[1]@ == "profile"@ ==> command_of(args) == Command::Profile,
        args[1]@ == "config"@ ==> command_of(args) == Command::Config,
        args[1]@ == "daemon"@ ==> command_of(args) == Command::Daemon,
        args[1]@ == "daemon-run"@ ==> command_of(args) == Command::DaemonRun,
        args[1]@ == "test"@ ==> command_of(args) == Command::Test,
{
    reveal_strlit("onboard");
    reveal_strlit("status");
    reveal_strlit("profile");
    reveal_strlit("config");
    reveal_strlit("daemon");
    reveal_strlit("daemon-run");
    reveal_strlit("test");
    assert("onboard"@.len() == 7 && "onboard"@[0] == 'o');
    assert("status"@.len() == 6 && "status"@[0] == 's');
    assert("profile"@.len() == 7 && "profile"@[0] == 'p');
    assert("config"@.len() == 6 && "config"@[0] == 'c');
    assert("daemon"@.len() == 6 && "daemon"@[0] == 'd');
    assert("daemon-run"@.len() == 10);
    assert("test"@.len() == 4);
    assert(args.take(2)[1] == args[1]);
}

/// The subcommand that the command line `args` (program name first) asks for.
pub fn parse_command(args: &[String]) -> (c: Command)
    ensures
        c == command_of(args@),
{
    if arg_equals(args, 1, "onboard") {
        Command::Onboard
    } else if arg_equals(args, 1, "status") {
        Command::Status
    } else if arg_equals(args, 1, "profile") {
        Command::Profile
    } else if arg_equals(args, 1, "config") {
        Command::Config
    } else if arg_equals(args, 1, "daemon") {
        Command::Daemon
    } else if arg_equals(args, 1, "daemon-run") {
        Command::DaemonRun
    } else if arg_equals(args, 1, "test") {
        Command::Test
    } else {
        Command::Usage
    }
}

/// How a subcommand checks for the device before it runs.
#[derive(Debug, Clone, Copy, PartialEq, Eq, Structural)]
pub enum DeviceCheck {
    /// No check.
    Skip,
    /// Check, try to repair access, and go on whatever came of it.
    Warn,
    /// Check, try to repair access, and stop when the device is unusable.
    Required,
}

pub open spec fn device_check_of(c: Command) -> DeviceCheck {
    match c {
        Command::Status | Command::Profile | Command::Usage => DeviceCheck::Warn,
        Command::DaemonRun | Command::Test => DeviceCheck::Required,
        _ => DeviceCheck::Skip,
    }
}

/// How subcommand `c` checks for the device: the status, profile and usage
/// commands warn, the daemon run and the fan test require it, the others
/// do not check.
pub fn device_check(c: Command) -> (r: DeviceCheck)
    ensures
        r == device_check_of(c),
{
    match c {
        Command::Status | Command::Profile | Command::Usage => DeviceCheck::Warn,
        Command::DaemonRun | Command::Test => DeviceCheck::Required,
        _ => DeviceCheck::Skip,
    }
}

/// The mark shown beside a setup check.
pub fn check_mark(ok: bool) -> (r: &'static str)
    ensures
        r@ == (if ok {
            "✓"@
        } else {
            "✗"@
        }),
{
    if ok {
        "✓"
    } else {
        "✗"
    }
}

/// What the `daemon` subcommand does.
#[derive(Debug, Clone, Copy, PartialEq, Eq, Structural)]
pub enum DaemonCommand {
    Start,
    Stop,
    Status,
}

/// The `daemon` action named by the argument after the subcommand: `start`
/// and `stop` as named, anything else (or nothing) shows the status.
pub fn cmd_daemon(args: &[String]) -> (r: DaemonCommand)
    ensures
        r == (if arg_is(args@, 2, "start") {
            DaemonCommand::Start
        } else if arg_is(args@, 2, "stop") {
            DaemonCommand::Stop
        } else {
            DaemonCommand::Status
        }),
{
    if arg_equals(args, 2, "start") {
        DaemonCommand::Start
    } else if arg_equals(args, 2, "stop") {
        DaemonCommand::Stop
    } else {
        DaemonCommand::Status
    }
}

/// What the `profile` subcommand does.
#[derive(Debug, Clone, Copy, PartialEq, Eq, Structural)]
pub enum ProfileCommand {
    /// Show the active mode.
    Show,
    /// Apply a mode.
    Apply(ControlMode),
    /// The argument names no mode.
    Unknown,
}

/// The mode a profile name stands for: the lower-case or the capitalised
/// name of a mode.
pub open spec fn profile_named(name: Seq<char>) -> Option<ControlMode> {
    if name == "quiet"@ || name == "Quiet"@ {
        Some(ControlMode::Quiet)
    } else if name == "performance"@ || name == "Performance"@ {
        Some(ControlMode::Performance)
    } else if name == "overboost"@ || name == "Overboost"@ {
        Some(ControlMode::Overboost)
    } else if name == "custom"@ || name == "Custom"@ {
        Some(ControlMode::Custom)
    } else {
        None
    }
}

/// Every mode is selected both by its lower-case name and by its label:
/// `quiet`/`Quiet`, `performance`/`Performance`, `overboost`/`Overboost`
/// and `custom`/`Custom`; so `tuxfans profile <name>` applies that mode.
pub proof fn law_profile_names(m: ControlMode)
    ensures
        profile_named(mode_label(m)) == Some(m),
        m == ControlMode::Quiet ==> profile_named("quiet"@) == Some(m),
        m == ControlMode::Performance ==> profile_named("performance"@) == Some(m),
        m == ControlMode::Overboost ==> profile_named("overboost"@) == Some(m),
        m == ControlMode::Custom ==> profile_named("custom"@) == Some(m),
        m == ControlMode::Quiet ==> mode_label(m) == "Quiet"@,
        m == ControlMode::Performance ==> mode_label(m) == "Performance"@,
        m == ControlMode::Overboost ==> mode_label(m) == "Overboost"@,
        m == ControlMode::Custom ==> mode_label(m) == "Custom"@,
        mode_label(m) == "Quiet"@ || mode_label(m) == "Performance"@ || mode_label(m)
            == "Overboost"@ || mode_label(m) == "Custom"@,
{
    reveal_strlit("quiet");
    reveal_strlit("Quiet");
    reveal_strlit("performance");
    reveal_strlit("Performance");
    reveal_strlit("overboost");
    reveal_strlit("Overboost");
    reveal_strlit("custom");
    reveal_strlit("Custom");
    assert("quiet"@.len() == 5 && "Quiet"@.len() == 5);
    assert("performance"@.len() == 11 && "Performance"@.len() == 11);
    assert("overboost"@.len() == 9 && "Overboost"@.len() == 9);
    assert("custom"@.len() == 6 && "Custom"@.len() == 6);
}

/// The profile command applies the mode its argument names: any mode's
/// lower-case name or label gives `Apply` of that mode.
pub proof fn law_profile_command_applies(args: Seq<String>, m: ControlMode)
    requires
        args.len() > 2,
        args[2]@ == mode_label(m) || (m == ControlMode::Quiet && args[2]@ == "quiet"@) || (m
            == ControlMode::Performance && args[2]@ == "performance"@) || (m
            == ControlMode::Overboost && args[2]@ == "overboost"@) || (m == ControlMode::Custom
            && args[2]@ == "custom"@),
    ensures
        (match profile_named(args[2]@) {
            Some(x) => ProfileCommand::Apply(x),
            None => ProfileCommand::Unknown,
        }) == ProfileCommand::Apply(m),
{
    law_profile_names(m);
}

/// The `profile` action: no argument shows the active mode, a mode's name
/// applies it, any other argument is unknown.
pub fn cmd_profile(args: &[String]) -> (r: ProfileCommand)
    ensures
        r == (if args@.len() <= 2 {
            ProfileCommand::Show
        } else {
            match profile_named(args@[2]@) {
                Some(m) => ProfileCommand::Apply(m),
                None => ProfileCommand::Unknown,
            }
        }),
{
    if args.len() <= 2 {
        ProfileCommand::Show
    } else if arg_equals(args, 2, "quiet") || arg_equals(args, 2, "Quiet") {
        ProfileCommand::Apply(ControlMode::Quiet)
    } else if arg_equals(args, 2, "performance") || arg_equals(args, 2, "Performance") {
        ProfileCommand::Apply(ControlMode::Performance)
    } else if arg_equals(args, 2, "overboost") || arg_equals(args, 2, "Overboost") {
        ProfileCommand::Apply(ControlMode::Overboost)
    } else if arg_equals(args, 2, "custom") || arg_equals(args, 2, "Custom") {
        ProfileCommand::Apply(ControlMode::Custom)
    } else {
        ProfileCommand::Unknown
    }
}

/// What the `config` subcommand does.
#[derive(Debug, Clone, Copy, PartialEq, Eq, Structural)]
pub enum ConfigCommand {
    /// Show the configuration.
    Show,
    /// Reset the configuration to the defaults.
    Reset,
    /// The argument names no action.
    Unknown,
}

/// The `config` action: no argument shows the configuration, `reset`
/// resets it, anything else is unknown.
pub fn cmd_config(args: &[String]) -> (r: ConfigCommand)
    ensures
        r == (if args@.len() <= 2 {
            ConfigCommand::Show
        } else if arg_is(args@, 2, "reset") {
            ConfigCommand::Reset
        } else {
            ConfigCommand::Unknown
        }),
{
    if args.len() <= 2 {
        ConfigCommand::Show
    } else if arg_equals(args, 2, "reset") {
        ConfigCommand::Reset
    } else {
        ConfigCommand::Unknown
    }
}

/// The default speed, in percent, of the raw fan test.
pub const TEST_DEFAULT_SPEED: u8 = 100;
/// The default length, in seconds, of the raw fan test.
pub const TEST_DEFAULT_SECS: u64 = 10;

/// The speed and length of the raw fan test from the numbers given on the
/// command line: a speed above 100 or none gives 100, a length of 0 or none
/// gives 10 seconds.
pub fn cmd_test(speed: Option<u8>, secs: Option<u64>) -> (r: (u8, u64))
    ensures
        r.0 == (match speed {
            Some(v) if v <= 100 => v,
            _ => TEST_DEFAULT_SPEED,
        }),
        r.1 == (match secs {
            Some(v) if v > 0 => v,
            _ => TEST_DEFAULT_SECS,
        }),
{
    let s = match speed {
        Some(v) => if v <= 100 {
            v
        } else {
            TEST_DEFAULT_SPEED
        },
        None => TEST_DEFAULT_SPEED,
    };
    let t = match secs {
        Some(v) => if v > 0 {
            v
        } else {
            TEST_DEFAULT_SECS
        },
        None => TEST_DEFAULT_SECS,
    };
    (s, t)
}

/// How the status shows who drives the fans.
pub fn ec_control_label(ec_auto: Option<bool>) -> (r: &'static str)
    ensures
        r@ == (match ec_auto {
            Some(true) => "auto"@,
            Some(false) => "manual"@,
            None => "--"@,
        }),
{
    match ec_auto {
        Some(true) => "auto",
        Some(false) => "manual",
        None => "--",
    }
}

/// The systemd unit text before the path of the program.
pub const UNIT_HEAD: &'static str = "[Unit]\nDescription=tuxfans fan curve daemon\nAfter=multi-user.target\n\n[Service]\nType=simple\nExecStart=\"";

/// The systemd unit text after the path of the program.
pub const UNIT_TAIL: &'static str = "\" daemon-run\nRestart=on-failure\nRestartSec=5\n\n[Install]\nWantedBy=default.target\n";

/// The user service unit that runs the daemon from the program at `exe`
/// (already escaped for a quoted unit argument).
pub fn service_unit(exe: &str) -> (r: String)
    ensures
        r@ == UNIT_HEAD@ + exe@ + UNIT_TAIL@,
{
    let mut r = String::from_str(UNIT_HEAD);
    r.append(exe);
    r.append(UNIT_TAIL);
    r
}

/// A character as written inside a double-quoted unit argument: a
/// backslash and a double quote get a backslash before them.
pub open spec fn escape_char(c: char) -> Seq<char> {
    if c == '\\' {
        seq!['\\', '\\']
    } else if c == '"' {
        seq!['\\', '"']
    } else {
        seq![c]
    }
}

/// A text as written inside a double-quoted unit argument.
pub open spec fn escape_quoted(s: Seq<char>) -> Seq<char>
    decreases s.len(),
{
    if s.len() == 0 {
        Seq::empty()
    } else {
        escape_quoted(s.drop_last()) + escape_char(s.last())
    }
}

/// `path` escaped for use inside the double quotes of `ExecStart=`.
pub fn escape_exec_path(path: &str) -> (r: String)
    ensures
        r@ == escape_quoted(path@),
{
    let n = path.unicode_len();
    let mut r = String::new();
    let mut i: usize = 0;
    while i < n
        invariant
            n == path@.len(),
            i <= n,
            r@ == escape_quoted(path@.take(i as int)),
        decreases n - i,
    {
        let c = path.get_char(i);
        proof {
            reveal_strlit("\\\\");
            reveal_strlit("\\\"");
        }
        if c == '\\' {
            r.append("\\\\");
        } else if c == '"' {
            r.append("\\\"");
        } else {
            let one = path.substring_char(i, i + 1);
            assert(one@ =~= seq![c]);
            r.append(one);
        }
        assert(path@.take(i + 1).drop_last() =~= path@.take(i as int));
        i = i + 1;
    }
    assert(path@.take(n as int) =~= path@);
    r
}

} // verus!
