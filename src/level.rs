//! Severity levels, their display labels, and the standard stream that each
//! one is written to.

use vstd::prelude::*;

verus! {

/// How urgent an event is, from least to most severe.
#[derive(Clone, Copy, Debug, PartialEq, Eq, Structural)]
pub enum Severity {
    Trace,
    Debug,
    Info,
    Warn,
    Error,
}

/// The standard stream that a line is written to.
#[derive(Clone, Copy, Debug, PartialEq, Eq, Structural)]
pub enum StandardOutput {
    Stdout,
    Stderr,
}

/// The stream for a severity: errors and warnings go to standard error,
/// everything else to standard output.
pub open spec fn channel_of(level: Severity) -> StandardOutput {
    match level {
        Severity::Error | Severity::Warn => StandardOutput::Stderr,
        _ => StandardOutput::Stdout,
    }
}

impl StandardOutput {
    /// Picks the stream that an event of the given severity is written to.
    pub fn new(level: &Severity) -> (r: Self)
        ensures
            r == channel_of(*level),
            r == StandardOutput::Stderr <==> (*level == Severity::Error || *level == Severity::Warn),
    {
        match *level {
            Severity::Error | Severity::Warn => StandardOutput::Stderr,
            _ => StandardOutput::Stdout,
        }
    }
}

} // verus!
