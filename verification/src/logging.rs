//! The record formatter: renders one log event as one line of text,
//! `<local-time> [<severity, width 5>] [<origin>] <message>` with a final
//! newline. Pure except for the time text, which a trusted chrono wrapper
//! renders from the instant.

use vstd::prelude::*;
use vstd::string::StringExecFns;

use crate::clock;

verus! {

/// Severity of a single log record.
#[derive(Debug, Clone, Copy, PartialEq, Eq, Structural)]
pub enum Level {
    Error,
    Warn,
    Info,
    Debug,
    Trace,
}

/// Renders log records as text lines.
pub struct LogFormatter {}

impl LogFormatter {
    /// The name of a severity level.
    pub fn level_to_str(level: Level) -> (r: &'static str)
        ensures
            r@ == Self::level_str_spec(level),
    {
        match level {
            Level::Error => "Error",
            Level::Warn => "Warn",
            Level::Info => "Info",
            Level::Debug => "Debug",
            Level::Trace => "Trace",
        }
    }

    /// What `level_to_str` returns.
    pub open spec fn level_str_spec(level: Level) -> Seq<char> {
        match level {
            Level::Error => "Error"@,
            Level::Warn => "Warn"@,
            Level::Info => "Info"@,
            Level::Debug => "Debug"@,
            Level::Trace => "Trace"@,
        }
    }

    /// The level name padded with spaces to width 5, as it stands in a
    /// formatted line.
    pub open spec fn level_padded_spec(level: Level) -> Seq<char> {
        match level {
            Level::Error => "Error"@,
            Level::Warn => "Warn "@,
            Level::Info => "Info "@,
            Level::Debug => "Debug"@,
            Level::Trace => "Trace"@,
        }
    }

    fn level_to_padded_str(level: Level) -> (r: &'static str)
        ensures
            r@ == Self::level_padded_spec(level),
    {
        match level {
            Level::Error => "Error",
            Level::Warn => "Warn ",
            Level::Info => "Info ",
            Level::Debug => "Debug",
            Level::Trace => "Trace",
        }
    }

    /// The full text of one formatted record.
    pub open spec fn line_spec(now_ms: int, level: Level, origin: Seq<char>, message: Seq<char>) -> Seq<char> {
        clock::time_text(now_ms) + " ["@ + Self::level_padded_spec(level) + "] ["@ + origin
            + "] "@ + message + "\n"@
    }

    /// Renders one record: the time of day, the severity padded to width 5,
    /// the origin label, and the message, newline-terminated.
    pub fn do_format(now_ms: i64, level: Level, origin: &str, message: &str) -> (r: String)
        requires
            0 <= now_ms <= clock::MAX_TIME_MILLIS,
        ensures
            r@ == Self::line_spec(now_ms as int, level, origin@, message@),
    {
        let mut r = clock::time_text_str(now_ms);
        r.append(" [");
        r.append(Self::level_to_padded_str(level));
        r.append("] [");
        r.append(origin);
        r.append("] ");
        r.append(message);
        r.append("\n");
        proof {
            assert(r@ =~= Self::line_spec(now_ms as int, level, origin@, message@));
        }
        r
    }
}

} // verus!
