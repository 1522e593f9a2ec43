//! Filters by the nature of a path: on the names of files, on the names of
//! folders, or on whole paths.

use crate::entry::globbing::{glob_compiles, glob_matches, Glob};
use crate::entry::E;
use crate::paths::{file_name, path_file_name, PathKind};
use vstd::prelude::*;

verus! {

/// A filter as it is written: a glob and what it is to be applied to.
#[derive(Debug)]
pub enum Filter {
    /// A glob for the names of folders.
    Folders(String),
    /// A glob for the names of files.
    Files(String),
    /// A glob for whole paths, of files and folders alike.
    Common(String),
}

impl Filter {
    /// The glob of the filter, as text.
    pub open spec fn text(&self) -> Seq<char> {
        match self {
            Filter::Folders(s) => s@,
            Filter::Files(s) => s@,
            Filter::Common(s) => s@,
        }
    }

    /// The glob of the filter, as text.
    pub fn as_str(&self) -> (r: &str)
        ensures
            r@ == self.text(),
    {
        match self {
            Filter::Files(s) => s.as_str(),
            Filter::Folders(s) => s.as_str(),
            Filter::Common(s) => s.as_str(),
        }
    }

    /// Compiles the filter. It fails, with the text and the error of the
    /// compiler, exactly where the text is no well-formed glob; else the
    /// accepted filter is of the same kind and holds the same text.
    pub fn accept(self) -> (r: Result<FilterAccepted, E>)
        ensures
            r is Ok <==> glob_compiles(self.text()),
            r matches Ok(accepted) ==> accepted.compiled_from(&self),
            r matches Err(err) ==> err matches E::PatternError(text, _) && text@ == self.text(),
    {
        match Glob::new(self.as_str()) {
            Ok(glob) => Ok(
                match self {
                    Filter::Files(_) => FilterAccepted::Files(glob),
                    Filter::Folders(_) => FilterAccepted::Folders(glob),
                    Filter::Common(_) => FilterAccepted::Common(glob),
                },
            ),
            Err(err) => {
                let text = match self {
                    Filter::Files(s) => s,
                    Filter::Folders(s) => s,
                    Filter::Common(s) => s,
                };
                Err(E::PatternError(text, err))
            },
        }
    }
}

/// A filter whose glob is compiled.
#[derive(Debug)]
pub enum FilterAccepted {
    /// A glob for the names of folders.
    Folders(Glob),
    /// A glob for the names of files.
    Files(Glob),
    /// A glob for whole paths, of files and folders alike.
    Common(Glob),
}

impl FilterAccepted {
    /// The glob of the filter, as text.
    pub open spec fn text(&self) -> Seq<char> {
        match self {
            FilterAccepted::Folders(g) => g@,
            FilterAccepted::Files(g) => g@,
            FilterAccepted::Common(g) => g@,
        }
    }

    /// Whether this filter is the compiled form of `written`.
    pub open spec fn compiled_from(&self, written: &Filter) -> bool {
        &&& self.text() == written.text()
        &&& self is Folders <==> written is Folders
        &&& self is Files <==> written is Files
        &&& self is Common <==> written is Common
    }

    /// Whether two filters are of the same kind and hold the same glob.
    pub open spec fn same_as(&self, other: &FilterAccepted) -> bool {
        &&& self.text() == other.text()
        &&& self is Folders <==> other is Folders
        &&& self is Files <==> other is Files
        &&& self is Common <==> other is Common
    }

    /// What the filter says of `path`, which leads to a thing of kind `kind`.
    ///
    /// A filter for files speaks only of files, and of their names; a filter
    /// for folders speaks only of folders, and of their names; a common filter
    /// speaks of every path, as a whole. `None` means that the filter does not
    /// speak of this path.
    pub open spec fn verdict(&self, path: Seq<char>, kind: PathKind) -> Option<bool> {
        match self {
            FilterAccepted::Files(g) => if kind == PathKind::File && path_file_name(path) is Some {
                Some(glob_matches(g@, path_file_name(path)->0))
            } else {
                None
            },
            FilterAccepted::Folders(g) => if kind == PathKind::Folder && path_file_name(path)
                is Some {
                Some(glob_matches(g@, path_file_name(path)->0))
            } else {
                None
            },
            FilterAccepted::Common(g) => Some(glob_matches(g@, path)),
        }
    }

    /// Computes [`FilterAccepted::verdict`].
    pub fn filtered(&self, path: &str, kind: PathKind) -> (r: Option<bool>)
        ensures
            r == self.verdict(path@, kind),
    {
        match self {
            FilterAccepted::Files(glob) => {
                match kind {
                    PathKind::File => match file_name(path) {
                        Some(name) => Some(glob.matches(name)),
                        None => None,
                    },
                    _ => None,
                }
            },
            FilterAccepted::Folders(glob) => {
                match kind {
                    PathKind::Folder => match file_name(path) {
                        Some(name) => Some(glob.matches(name)),
                        None => None,
                    },
                    _ => None,
                }
            },
            FilterAccepted::Common(glob) => Some(glob.matches(path)),
        }
    }

    /// The glob of the filter, as text.
    pub fn as_str(&self) -> (r: &str)
        ensures
            r@ == self.text(),
    {
        match self {
            FilterAccepted::Folders(g) => g.as_str(),
            FilterAccepted::Files(g) => g.as_str(),
            FilterAccepted::Common(g) => g.as_str(),
        }
    }

    /// Whether two filters are of the same kind and hold the same glob.
    pub fn same(&self, other: &FilterAccepted) -> (r: bool)
        ensures
            r == self.same_as(other),
    {
        match (self, other) {
            (FilterAccepted::Folders(a), FilterAccepted::Folders(b)) => a.same(b),
            (FilterAccepted::Files(a), FilterAccepted::Files(b)) => a.same(b),
            (FilterAccepted::Common(a), FilterAccepted::Common(b)) => a.same(b),
            _ => false,
        }
    }
}

impl Clone for FilterAccepted {
    fn clone(&self) -> (r: Self)
        ensures
            r.same_as(self),
    {
        match self {
            FilterAccepted::Folders(g) => FilterAccepted::Folders(g.clone()),
            FilterAccepted::Files(g) => FilterAccepted::Files(g.clone()),
            FilterAccepted::Common(g) => FilterAccepted::Common(g.clone()),
        }
    }
}

} // verus!
