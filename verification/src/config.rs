//! Common configuration values and the trait a host program implements to
//! supply a parsed configuration. Reading and decoding the configuration
//! file is an outside concern: the host hands over the file's text.

use vstd::prelude::*;

verus! {

/// Severity threshold for the logging subsystem.
#[derive(Debug, Clone, Copy, PartialEq, Eq, Structural)]
pub enum LevelFilter {
    Off,
    Error,
    Warn,
    Info,
    Debug,
    Trace,
}

/// The configuration values every program built on this library needs:
/// the log queue capacity, the minimum severity, and the two output
/// directories (ordinary logs and alerts).
#[derive(Debug)]
pub struct CommonConfig {
    pub log_channel_size: usize,
    pub log_level: LevelFilter,
    pub log_path: String,
    pub alerts_path: String,
}

/// Implemented by the host's configuration type. `parse` decodes the
/// configuration file's text; `is_valid` may do extra checks (when
/// `prod_run` is false, presence of other files should not be required).
pub trait Config: Sized {
    type Err;

    fn parse(text: &str) -> Result<Self, Self::Err>;

    fn is_valid(&self, _prod_run: bool) -> Result<(), String> {
        Ok(())
    }

    fn get_common_config(&self) -> &CommonConfig;
}

} // verus!
