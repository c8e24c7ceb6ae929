//! Errors of the analysis.

use vstd::prelude::*;

verus! {

/// What can go wrong while analysing a history.
#[derive(Debug, Clone, Copy, PartialEq, Eq, Structural)]
pub enum WardenError {
    /// A commit carries a timestamp outside the representable calendar range.
    InvalidTimestamp(i64),
    /// The output of `git log` does not have the shape the parser reads.
    MalformedLog,
}

} // verus!
