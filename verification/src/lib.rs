//! Application-bootstrap library: uniform startup decisions, configuration
//! data, and a size-, time- and signal-triggered rolling log writer that
//! multiplexes log records by category into separate files.

pub mod application;
pub mod clock;
pub mod commandline;
pub mod config;
pub mod error;
pub mod logging;
pub mod logging_file;

pub use commandline::CommandlineArgs;
pub use commandline::CommonArgs;
pub use config::CommonConfig;
pub use config::Config;
pub use error::Error;
