//! The library's error type. Each variant carries the detail text (and,
//! where one is involved, the path) of the condition it reports; `message`
//! renders the exact human-readable description of the error.

use vstd::prelude::*;
use vstd::string::StringExecFns;

verus! {

/// Everything that can go wrong while bootstrapping an application or
/// rotating its log files. Paths are carried as plain text.
#[derive(Debug)]
pub enum Error {
    BuildInfoMissing,
    CommandlineInvalid(String),
    ConfigOpenError { path: String, message: String },
    ConfigParseError(String),
    ConfigInvalid { path: String, message: String },
    DaemonizationFailed(String),
    LogConsoleInit(String),
    LogFileInit { message: String, path: String },
    LogFilePath(String),
    SignalInit(String),
    UserRunFailed(String),
}

impl Error {
    /// The exact text `message` returns for this error.
    pub open spec fn message_spec(&self) -> Seq<char> {
        match self {
            Error::BuildInfoMissing => "Could not read build_info"@,
            Error::CommandlineInvalid(s) => "Invalid commandline "@ + s@,
            Error::ConfigOpenError { path, message } => "Could not open config file "@ + path@
                + ": "@ + message@,
            Error::ConfigParseError(s) => "Config parse error "@ + s@,
            Error::ConfigInvalid { path, message } => "Invalid config file "@ + path@ + ": "@
                + message@,
            Error::DaemonizationFailed(s) => "Could not daemonize: "@ + s@,
            Error::LogConsoleInit(s) => "Could not init console logging: "@ + s@,
            Error::LogFileInit { message, path } => "Could not init file logging to "@ + path@
                + ": "@ + message@,
            Error::LogFilePath(path) => "Could not get log file path of "@ + path@,
            Error::SignalInit(s) => "Installing signal handler returned error: "@ + s@,
            Error::UserRunFailed(s) => "User run function returned error: "@ + s@,
        }
    }

    /// One line of text describing the error.
    pub fn message(&self) -> (r: String)
        ensures
            r@ == self.message_spec(),
    {
        match self {
            Error::BuildInfoMissing => "Could not read build_info".to_owned(),
            Error::CommandlineInvalid(s) => {
                let mut r = "Invalid commandline ".to_owned();
                r.append(s.as_str());
                r
            },
            Error::ConfigOpenError { path, message } => {
                let mut r = "Could not open config file ".to_owned();
                r.append(path.as_str());
                r.append(": ");
                r.append(message.as_str());
                proof {
                    assert(r@ =~= self.message_spec());
                }
                r
            },
            Error::ConfigParseError(s) => {
                let mut r = "Config parse error ".to_owned();
                r.append(s.as_str());
                r
            },
            Error::ConfigInvalid { path, message } => {
                let mut r = "Invalid config file ".to_owned();
                r.append(path.as_str());
                r.append(": ");
                r.append(message.as_str());
                proof {
                    assert(r@ =~= self.message_spec());
                }
                r
            },
            Error::DaemonizationFailed(s) => {
                let mut r = "Could not daemonize: ".to_owned();
                r.append(s.as_str());
                r
            },
            Error::LogConsoleInit(s) => {
                let mut r = "Could not init console logging: ".to_owned();
                r.append(s.as_str());
                r
            },
            Error::LogFileInit { message, path } => {
                let mut r = "Could not init file logging to ".to_owned();
                r.append(path.as_str());
                r.append(": ");
                r.append(message.as_str());
                proof {
                    assert(r@ =~= self.message_spec());
                }
                r
            },
            Error::LogFilePath(path) => {
                let mut r = "Could not get log file path of ".to_owned();
                r.append(path.as_str());
                r
            },
            Error::SignalInit(s) => {
                let mut r = "Installing signal handler returned error: ".to_owned();
                r.append(s.as_str());
                r
            },
            Error::UserRunFailed(s) => {
                let mut r = "User run function returned error: ".to_owned();
                r.append(s.as_str());
                r
            },
        }
    }
}

} // verus!
