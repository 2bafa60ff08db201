//! Logging configuration flags.
//!
//! The host gates its verbose and debug logging on two process-wide
//! flags; the library carries them as a plain value, and the process
//! decides where to store it.

use vstd::prelude::*;

verus! {

/// The logging switches of the host process.
#[derive(Clone, Copy, PartialEq, Eq, Structural, Debug)]
pub struct LogConfig {
    pub verbose: bool,
    pub debug: bool,
}

impl LogConfig {
    pub fn new(verbose: bool, debug: bool) -> (r: Self)
        ensures
            r.verbose == verbose,
            r.debug == debug,
    {
        LogConfig { verbose, debug }
    }

    /// Whether verbose logging is enabled.
    pub fn is_verbose(&self) -> (r: bool)
        ensures
            r == self.verbose,
    {
        self.verbose
    }

    /// Whether debug logging is enabled.
    pub fn is_debug(&self) -> (r: bool)
        ensures
            r == self.debug,
    {
        self.debug
    }
}

impl Default for LogConfig {
    /// Both switches start off.
    fn default() -> (r: Self)
        ensures
            !r.verbose,
            !r.debug,
    {
        LogConfig { verbose: false, debug: false }
    }
}

} // verus!
