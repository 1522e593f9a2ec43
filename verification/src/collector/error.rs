//! What can go wrong while paths are collected.

use glob::PatternError;
use std::io::Error;
use vstd::prelude::*;

verus! {

/// Errors of collecting paths.
#[derive(Debug)]
pub enum E {
    /// A line of a context file (first field) is no well-formed glob.
    PatternError(String, PatternError),
    /// The operating system refused an operation.
    IO(Error),
    /// No worker is left to take a folder.
    NoAvailableWorkers,
    /// The collecting thread could not be joined.
    JoinError(String),
    /// The number of threads is out of range, or the number of cores unknown.
    OptimalThreadsNumber,
    /// The operation was aborted.
    Aborted,
    /// A channel between threads (named by the field) is closed.
    ChannelErr(String),
    /// An error together with the path that caused it.
    Bound(String, Box<E>),
}

} // verus!
