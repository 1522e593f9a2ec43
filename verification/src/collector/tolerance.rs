//! How errors on single paths are treated.

use vstd::prelude::*;

verus! {

/// What to do with an error that one path caused while collecting or hashing.
#[derive(Clone, Copy, Debug, PartialEq, Eq, Structural)]
pub enum Tolerance {
    /// Log the error, record it with its path and go on.
    LogErrors,
    /// Record the error with its path and go on, without logging.
    DoNotLogErrors,
    /// Stop at the first error and return it.
    StopOnErrors,
}

impl Tolerance {
    /// Whether the first error on a path ends the whole run.
    pub open spec fn stops(&self) -> bool {
        *self == Tolerance::StopOnErrors
    }

    /// Whether an error that is recorded is also written to the log.
    pub fn logs(&self) -> (r: bool)
        ensures
            r == (*self == Tolerance::LogErrors),
    {
        matches!(self, Tolerance::LogErrors)
    }
}

impl Default for Tolerance {
    fn default() -> (r: Self)
        ensures
            r == Tolerance::LogErrors,
    {
        Tolerance::LogErrors
    }
}

} // verus!
