use common_rust::application::{default_config_path, plan_startup, StartupAction};
use common_rust::clock::{now_millis, MAX_TIME_MILLIS};
use common_rust::logging::{Level, LogFormatter};
use common_rust::CommonArgs;
use common_rust::Error;

#[test]
fn level_names() {
    assert_eq!(LogFormatter::level_to_str(Level::Error), "Error");
    assert_eq!(LogFormatter::level_to_str(Level::Warn), "Warn");
    assert_eq!(LogFormatter::level_to_str(Level::Info), "Info");
    assert_eq!(LogFormatter::level_to_str(Level::Debug), "Debug");
    assert_eq!(LogFormatter::level_to_str(Level::Trace), "Trace");
}

#[test]
fn formatted_line_has_time_level_origin_message() {
    let line = LogFormatter::do_format(0, Level::Warn, "my_module", "hello");
    assert_eq!(line, "00:00:00 [Warn ] [my_module] hello\n");
}

#[test]
fn formatted_line_renders_the_instant() {
    let line = LogFormatter::do_format(61_123, Level::Error, "m", "x");
    assert_eq!(line, "00:01:01.123 [Error] [m] x\n");
}

#[test]
fn error_messages_are_exact() {
    assert_eq!(Error::BuildInfoMissing.message(), "Could not read build_info");
    assert_eq!(
        Error::CommandlineInvalid(String::from("--bad")).message(),
        "Invalid commandline --bad"
    );
    assert_eq!(
        Error::ConfigOpenError { path: String::from("a.xml"), message: String::from("gone") }
            .message(),
        "Could not open config file a.xml: gone"
    );
    assert_eq!(
        Error::ConfigParseError(String::from("eof")).message(),
        "Config parse error eof"
    );
    assert_eq!(
        Error::ConfigInvalid { path: String::from("a.xml"), message: String::from("bad") }
            .message(),
        "Invalid config file a.xml: bad"
    );
    assert_eq!(
        Error::DaemonizationFailed(String::from("no tty")).message(),
        "Could not daemonize: no tty"
    );
    assert_eq!(
        Error::LogConsoleInit(String::from("oops")).message(),
        "Could not init console logging: oops"
    );
    assert_eq!(
        Error::LogFileInit { message: String::from("exists"), path: String::from("l.log") }
            .message(),
        "Could not init file logging to l.log: exists"
    );
    assert_eq!(
        Error::LogFilePath(String::from("d")).message(),
        "Could not get log file path of d"
    );
    assert_eq!(
        Error::SignalInit(String::from("denied")).message(),
        "Installing signal handler returned error: denied"
    );
    assert_eq!(
        Error::UserRunFailed(String::from("boom")).message(),
        "User run function returned error: boom"
    );
}

fn args(help: bool, version: bool, validate: bool, stdout: bool, foreground: bool) -> CommonArgs {
    CommonArgs { help, config: None, foreground, stdout, validate, version }
}

#[test]
fn startup_precedence() {
    assert_eq!(plan_startup(&args(true, true, true, true, true)), StartupAction::PrintHelp);
    assert_eq!(plan_startup(&args(false, true, true, true, true)), StartupAction::PrintVersion);
    assert_eq!(plan_startup(&args(false, false, true, false, false)), StartupAction::ValidateOnly);
    assert_eq!(
        plan_startup(&args(false, false, false, false, false)),
        StartupAction::Run { daemonize: true, log_to_stdout: false }
    );
    assert_eq!(
        plan_startup(&args(false, false, false, true, false)),
        StartupAction::Run { daemonize: false, log_to_stdout: true }
    );
    assert_eq!(
        plan_startup(&args(false, false, false, false, true)),
        StartupAction::Run { daemonize: false, log_to_stdout: false }
    );
}

#[test]
fn default_config_file_is_named_after_the_instance() {
    assert_eq!(default_config_path("my_service"), "my_service.xml");
}

#[test]
fn clock_reading_stays_in_the_window() {
    let now = now_millis();
    assert!(now >= 0);
    assert!(now <= MAX_TIME_MILLIS);
    // A sane wall clock reads later than 2020.
    assert!(now > 1_577_000_000_000);
}
