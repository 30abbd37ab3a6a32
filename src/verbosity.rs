//! The logging level chosen by the `-v` and `-q` counts.

use vstd::prelude::*;

verus! {

/// A logging level filter, from silent to most detailed.
#[derive(Clone, Copy, Debug, PartialEq, Eq, Structural)]
pub enum LevelFilter {
    Off,
    Error,
    Warn,
    Info,
    Debug,
    Trace,
}

/// How often `-v` (more detail) and `-q` (less) were given.
#[derive(Clone, Copy, Debug, PartialEq, Eq, Structural)]
pub struct Verbosity {
    pub verbose: u8,
    pub quiet: u8,
}

/// Any `-q` gives warnings only; otherwise no `-v` gives info, one gives
/// debug, more give trace.
pub open spec fn level_for(verbose: u8, quiet: u8) -> LevelFilter {
    if quiet > 0 {
        LevelFilter::Warn
    } else if verbose == 0 {
        LevelFilter::Info
    } else if verbose == 1 {
        LevelFilter::Debug
    } else {
        LevelFilter::Trace
    }
}

impl Verbosity {
    pub fn log_level_filter(&self) -> (r: LevelFilter)
        ensures
            r == level_for(self.verbose, self.quiet),
    {
        if self.quiet > 0 {
            LevelFilter::Warn
        } else {
            match self.verbose {
                0 => LevelFilter::Info,
                1 => LevelFilter::Debug,
                _ => LevelFilter::Trace,
            }
        }
    }
}

} // verus!
