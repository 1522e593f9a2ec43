//! Context files: files that are found in the tree and hold rules for the
//! folder they stand in, as `.gitignore` does.

use crate::paths::{join, path_join};
use crate::text::str_eq;
use vstd::prelude::*;

verus! {

/// The name of a context file and what its rules mean, as it is written.
#[derive(Debug)]
pub enum ContextFile {
    /// The rules of the file say which paths are ignored.
    Ignore(String),
    /// The rules of the file say which files are accepted.
    Accept(String),
}

impl ContextFile {
    /// The context file as an entry holds it.
    pub open spec fn accept_spec(self) -> ContextFileAccepted {
        match self {
            ContextFile::Ignore(name) => ContextFileAccepted::Ignore(name),
            ContextFile::Accept(name) => ContextFileAccepted::Accept(name),
        }
    }

    /// The context file as an entry holds it.
    pub fn accept(self) -> (r: ContextFileAccepted)
        ensures
            r == self.accept_spec(),
    {
        match self {
            ContextFile::Ignore(name) => ContextFileAccepted::Ignore(name),
            ContextFile::Accept(name) => ContextFileAccepted::Accept(name),
        }
    }
}

/// The name of a context file and what its rules mean.
#[derive(Debug)]
pub enum ContextFileAccepted {
    /// The rules of the file say which paths are ignored.
    Ignore(String),
    /// The rules of the file say which files are accepted.
    Accept(String),
}

impl ContextFileAccepted {
    /// The name of the file.
    pub open spec fn name(&self) -> Seq<char> {
        match self {
            ContextFileAccepted::Ignore(name) => name@,
            ContextFileAccepted::Accept(name) => name@,
        }
    }

    /// Whether two context files have the same name and the same meaning.
    pub open spec fn same_as(&self, other: &ContextFileAccepted) -> bool {
        self.name() == other.name() && (self is Ignore <==> other is Ignore)
    }

    /// The name of the file.
    pub fn filename(&self) -> (r: &str)
        ensures
            r@ == self.name(),
    {
        match self {
            ContextFileAccepted::Accept(name) => name.as_str(),
            ContextFileAccepted::Ignore(name) => name.as_str(),
        }
    }

    /// Where the file would stand in the folder `dir`. Whether a file stands
    /// there is for the caller to find out.
    pub fn filepath(&self, dir: &str) -> (r: String)
        ensures
            r@ == path_join(dir@, self.name()),
    {
        join(dir, self.filename())
    }

    /// Computes [`ContextFileAccepted::same_as`].
    pub fn same(&self, other: &ContextFileAccepted) -> (r: bool)
        ensures
            r == self.same_as(other),
    {
        match (self, other) {
            (ContextFileAccepted::Ignore(a), ContextFileAccepted::Ignore(b)) => str_eq(
                a.as_str(),
                b.as_str(),
            ),
            (ContextFileAccepted::Accept(a), ContextFileAccepted::Accept(b)) => str_eq(
                a.as_str(),
                b.as_str(),
            ),
            _ => false,
        }
    }
}

impl Clone for ContextFileAccepted {
    fn clone(&self) -> (r: Self)
        ensures
            r == *self,
    {
        match self {
            ContextFileAccepted::Ignore(name) => ContextFileAccepted::Ignore(name.clone()),
            ContextFileAccepted::Accept(name) => ContextFileAccepted::Accept(name.clone()),
        }
    }
}

} // verus!
