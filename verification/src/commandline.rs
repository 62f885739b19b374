//! Common commandline flags and the trait a host program implements to
//! supply parsed arguments. Parsing itself is an outside concern: the host
//! parses the process arguments and hands over plain values.

use vstd::prelude::*;

verus! {

/// The flags every program built on this library understands.
#[derive(Debug)]
pub struct CommonArgs {
    pub help: bool,
    pub config: Option<String>,
    pub foreground: bool,
    pub stdout: bool,
    pub validate: bool,
    pub version: bool,
}

/// Implemented by the host's argument type. `parse_args` reads the process
/// arguments (an effect the host performs), the rest are plain accessors.
pub trait CommandlineArgs: Sized {
    type Err;

    fn parse_args() -> Result<Self, Self::Err>;

    fn get_common_args(&self) -> &CommonArgs;

    fn print_help();
}

} // verus!
