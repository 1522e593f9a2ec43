//! The error of the crate as a whole.

use crate::collector;
use crate::entry;
use crate::walker;
use std::io::Error;
use vstd::prelude::*;

verus! {

/// Any error that the crate reports.
#[derive(Debug)]
pub enum E {
    /// A walker failed.
    Walker(walker::E),
    /// Collecting failed.
    Collector(collector::E),
    /// An entry could not be built.
    EntryError(entry::E),
    /// The operating system refused an operation.
    IO(Error),
}

impl E {
    /// Wraps a walker's error.
    pub fn from_walker(err: walker::E) -> (r: E)
        ensures
            r == E::Walker(err),
    {
        E::Walker(err)
    }

    /// Wraps an error of collecting.
    pub fn from_collector(err: collector::E) -> (r: E)
        ensures
            r == E::Collector(err),
    {
        E::Collector(err)
    }

    /// Wraps an error of building an entry.
    pub fn from_entry(err: entry::E) -> (r: E)
        ensures
            r == E::EntryError(err),
    {
        E::EntryError(err)
    }
}

} // verus!
