//! What can go wrong while an entry is put together.

use glob::PatternError;
use vstd::prelude::*;

verus! {

/// Errors of building an [`crate::Entry`].
#[derive(Debug)]
pub enum E {
    /// The text (first field) is no well-formed glob.
    PatternError(String, PatternError),
    /// The path is neither a file nor a folder.
    OnlyFileOrFolder(String),
    /// The path of an entry must be absolute; this one is relative.
    RelativePathAsEntry(String),
    /// A filter must not be an absolute path.
    AbsolutePathAsFilter(String),
    /// The path of an entry must lead to a folder.
    OnlyFolderAsCwd(String),
    /// A combination of pattern filters holds another combination.
    NestedCombination,
}

} // verus!
