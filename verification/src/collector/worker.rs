//! What a worker makes of one item of a folder's listing.

use crate::collector::E;
use crate::entry::Entry;
use crate::paths::PathKind;
use std::io::Error;
use vstd::prelude::*;

verus! {

/// Where a link leads, as far as it was followed.
#[derive(Debug)]
pub struct LinkTarget {
    /// The path the link holds.
    pub path: String,
    /// Whether that path exists.
    pub exists: bool,
    /// What that path leads to.
    pub kind: PathKind,
}

/// One item of a folder's listing, with what the filesystem said of it.
#[derive(Debug)]
pub struct Found {
    /// The path of the item.
    pub path: String,
    /// Whether the path still exists.
    pub exists: bool,
    /// What the path leads to.
    pub kind: PathKind,
    /// For a link that leads to neither a file nor a folder: where it leads,
    /// or why it could not be read.
    pub link: Option<Result<LinkTarget, Error>>,
}

/// What becomes of one item of a listing.
#[derive(Debug)]
pub enum Outcome {
    /// The item is passed over.
    Skip,
    /// The path is a file to collect.
    Collect(String),
    /// The path is a folder for another worker to list.
    Delegate(String),
    /// The item caused an error, which is reported with its path.
    Report(String, E),
}

/// Listings are worked through by workers; this type holds their rules.
pub struct Worker {}

impl Worker {
    /// What is to become of `found`.
    ///
    /// An item that is gone, or that the entry does not accept, is passed
    /// over. A file is collected, a folder is delegated. Of anything else
    /// only a link counts, and it counts as what it leads to: its target is
    /// collected if it is an existing file, delegated if it is an existing
    /// folder; a link that could not be read is reported.
    pub open spec fn outcome(entry: &Entry, found: Found) -> Outcome {
        if !found.exists || !entry.accepts(found.path@, found.kind) {
            Outcome::Skip
        } else {
            match found.kind {
                PathKind::File => Outcome::Collect(found.path),
                PathKind::Folder => Outcome::Delegate(found.path),
                PathKind::Other => match found.link {
                    None => Outcome::Skip,
                    Some(Err(err)) => Outcome::Report(found.path, E::IO(err)),
                    Some(Ok(target)) => if target.exists && target.kind == PathKind::File {
                        Outcome::Collect(target.path)
                    } else if target.exists && target.kind == PathKind::Folder {
                        Outcome::Delegate(target.path)
                    } else {
                        Outcome::Skip
                    },
                },
            }
        }
    }

    /// Computes [`Worker::outcome`].
    pub fn run(entry: &Entry, found: Found) -> (r: Outcome)
        ensures
            r == Worker::outcome(entry, found),
    {
        if !found.exists {
            return Outcome::Skip;
        }
        if !entry.filtered(found.path.as_str(), found.kind) {
            return Outcome::Skip;
        }
        match found.kind {
            PathKind::File => Outcome::Collect(found.path),
            PathKind::Folder => Outcome::Delegate(found.path),
            PathKind::Other => match found.link {
                None => Outcome::Skip,
                Some(Err(err)) => Outcome::Report(found.path, E::IO(err)),
                Some(Ok(target)) => {
                    if !target.exists {
                        Outcome::Skip
                    } else {
                        match target.kind {
                            PathKind::File => Outcome::Collect(target.path),
                            PathKind::Folder => Outcome::Delegate(target.path),
                            PathKind::Other => Outcome::Skip,
                        }
                    }
                },
            },
        }
    }
}

} // verus!
