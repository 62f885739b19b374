//! Startup decisions: which of the commandline-selected actions a program
//! takes, and where its configuration file lives by default. The host
//! performs the actions (printing, daemonizing, running); the decisions
//! are made here.

use vstd::prelude::*;
use vstd::string::StringExecFns;

use crate::commandline::CommonArgs;

verus! {

/// What a program does after parsing its arguments, in order of precedence:
/// print help, print version information, only validate the configuration,
/// or run, detached from the terminal unless started for the foreground or
/// for stdout logging.
#[derive(Debug, Clone, Copy, PartialEq, Eq, Structural)]
pub enum StartupAction {
    PrintHelp,
    PrintVersion,
    ValidateOnly,
    Run { daemonize: bool, log_to_stdout: bool },
}

/// What `plan_startup` decides for the given flags.
pub open spec fn startup_spec(args: CommonArgs) -> StartupAction {
    if args.help {
        StartupAction::PrintHelp
    } else if args.version {
        StartupAction::PrintVersion
    } else if args.validate {
        StartupAction::ValidateOnly
    } else {
        StartupAction::Run {
            daemonize: !args.stdout && !args.foreground,
            log_to_stdout: args.stdout,
        }
    }
}

/// Decides the startup action: help wins over version, version over
/// validation, and a plain start runs the program, daemonized unless
/// foreground or stdout logging was asked for.
pub fn plan_startup(args: &CommonArgs) -> (a: StartupAction)
    ensures
        a == startup_spec(*args),
{
    if args.help {
        StartupAction::PrintHelp
    } else if args.version {
        StartupAction::PrintVersion
    } else if args.validate {
        StartupAction::ValidateOnly
    } else {
        StartupAction::Run {
            daemonize: !args.stdout && !args.foreground,
            log_to_stdout: args.stdout,
        }
    }
}

/// The configuration file a program reads when none is named: the instance
/// name with an `.xml` ending.
pub fn default_config_path(instance: &str) -> (r: String)
    ensures
        r@ == instance@ + ".xml"@,
{
    let mut r = instance.to_owned();
    r.append(".xml");
    r
}

} // verus!
