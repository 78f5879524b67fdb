//! Errors raised while generating candidates and running the search.

use vstd::prelude::*;

verus! {

/// Why a single candidate could not be generated; the candidate is simply
/// discarded for that try.
#[derive(Clone, Copy, Debug, PartialEq, Eq, Structural)]
pub enum CandidateError {
    /// The margins left a drawable area with no width or no height.
    DegenerateArea,
}

/// A fatal error that aborts the whole search.
#[derive(Clone, Copy, Debug, PartialEq, Eq, Structural)]
pub enum ProcessError {
    /// Neither a bound on tries nor one on generations was set, so the
    /// search could not be guaranteed to halt.
    NoTerminationBound,
    /// The painter's distributions are malformed (an empty weighted list,
    /// an inverted range, or values beyond the accepted limits).
    InvalidPainterOptions,
    /// Every candidate of one try failed: the configuration makes progress
    /// impossible. Carries the index of the try that failed.
    AllCandidatesFailed(u32),
}

impl CandidateError {
    /// A short human-readable description.
    pub fn describe(&self) -> String {
        "Cannot have a resulting rectangle of negative or empty area".to_string()
    }
}

impl ProcessError {
    /// A short human-readable description.
    pub fn describe(&self) -> String {
        match self {
            ProcessError::NoTerminationBound => "No bound on tries or generations was set".to_string(),
            ProcessError::InvalidPainterOptions => "The painter options are malformed".to_string(),
            ProcessError::AllCandidatesFailed(_) => "Every candidate in a try failed".to_string(),
        }
    }
}

} // verus!
