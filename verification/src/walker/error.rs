//! What can go wrong while a walker collects and hashes.

use crate::collector;
use crate::entry;
use glob::PatternError;
use std::io::Error;
use vstd::prelude::*;

verus! {

/// Errors of a [`crate::Walker`] and of its options.
#[derive(Debug)]
pub enum E {
    /// The text (first field) is no well-formed glob.
    PatternError(String, PatternError),
    /// The operating system refused an operation on the path.
    IOError(String, Error),
    /// The path cannot be a target.
    InvalidEntity(String),
    /// The path is neither a file nor a folder.
    OnlyFileOrFolder(String),
    /// The path of an entry must be absolute; this one is relative.
    RelativePathAsEntry(String),
    /// A filter must not be an absolute path.
    AbsolutePathAsFilter(String),
    /// The path of an entry must lead to a folder.
    OnlyFolderAsCwd(String),
    /// The path must be absolute.
    AbsolutePathRequired(String),
    /// The operation was aborted.
    Aborted,
    /// The number of threads is below the minimum.
    InvalidNumberOfThreads,
    /// The number of threads is more than twice the number of cores.
    NotOptimalNumberOfThreads,
    /// The file was collected and is gone.
    FileDoesNotExists(String),
    /// The walker holds no options.
    IsNotInited,
    /// The reader failed; the field is its message.
    Reader(String),
    /// The hasher failed; the field is its message.
    Hasher(String),
    /// Reading a file failed.
    ReadingIOError(Error),
    /// Data shared between threads is poisoned.
    PoisonError(String),
    /// A channel between threads is closed.
    ChannelError(String),
    /// Collecting failed.
    CollectorError(collector::E),
    /// An entry could not be built.
    EntryError(entry::E),
    /// The number of threads is out of range, or the number of cores unknown.
    OptimalThreadsNumber,
    /// No worker is left to take a job.
    NoAvailableWorkers,
    /// An error together with the path that caused it.
    Bound(String, Box<E>),
    /// The hashing thread could not be joined.
    JoinError(String),
    /// No range of the scenario holds a file of this size.
    NoRangeForScenarioStrategy(u64),
    /// The ranges of the scenario leave a gap that starts at this size.
    InvalidRangesForScenarioStrategy(u64),
    /// A scenario holds another scenario.
    NestedScenarioStrategy,
}

impl E {
    /// The error of a reader that failed with the message `detail`.
    pub fn reader(detail: String) -> (r: E)
        ensures
            r == E::Reader(detail),
    {
        E::Reader(detail)
    }

    /// The error of a hasher that failed with the message `detail`.
    pub fn hasher(detail: String) -> (r: E)
        ensures
            r == E::Hasher(detail),
    {
        E::Hasher(detail)
    }

    /// The walker's error for an error of collecting: `Aborted` stays
    /// `Aborted`, every other error is wrapped.
    pub fn from_collector(err: collector::E) -> (r: E)
        ensures
            r == (match err {
                collector::E::Aborted => E::Aborted,
                _ => E::CollectorError(err),
            }),
    {
        match err {
            collector::E::Aborted => E::Aborted,
            other => E::CollectorError(other),
        }
    }

    /// The walker's error for an error of building an entry.
    pub fn from_entry(err: entry::E) -> (r: E)
        ensures
            r == E::EntryError(err),
    {
        E::EntryError(err)
    }

    /// The walker's error for a failed read.
    pub fn from_io(err: Error) -> (r: E)
        ensures
            r == E::ReadingIOError(err),
    {
        E::ReadingIOError(err)
    }
}

} // verus!
