//! Paths as text, and what `std::path` says of them.
//!
//! The library holds a path as a `String`. The few questions it asks of a
//! path's structure are answered by `std::path::Path`, so that a path is taken
//! apart here exactly as the operating system's conventions take it apart.

use std::path::Path;
use vstd::prelude::*;

verus! {

/// What kind of thing a path leads to, as the filesystem reported it when the
/// path was probed.
#[derive(Clone, Copy, Debug, PartialEq, Eq, Structural)]
pub enum PathKind {
    /// A regular file, or a link that resolves to one.
    File,
    /// A directory, or a link that resolves to one.
    Folder,
    /// Anything else: a dangling link, a device, a socket.
    Other,
}

/// The final component of `path`, if it has one.
pub uninterp spec fn path_file_name(path: Seq<char>) -> Option<Seq<char>>;

/// `path` without its final component, if it has one.
pub uninterp spec fn path_parent(path: Seq<char>) -> Option<Seq<char>>;

/// `base` extended by `name`.
pub uninterp spec fn path_join(base: Seq<char>, name: Seq<char>) -> Seq<char>;

/// Whether `path` is absolute.
pub uninterp spec fn path_is_absolute(path: Seq<char>) -> bool;

/// `std::path::Path::file_name`: the final component of the path, `None`
/// where the path ends in `..` or has no component.
#[verifier::external_body]
pub(crate) fn file_name(path: &str) -> (r: Option<&str>)
    ensures
        r is Some == path_file_name(path@) is Some,
        r matches Some(name) ==> path_file_name(path@) == Some(name@),
{
    Path::new(path).file_name()?.to_str()
}

/// `std::path::Path::parent`: the path without its final component, `None`
/// where the path ends in a root or is empty.
#[verifier::external_body]
pub(crate) fn parent(path: &str) -> (r: Option<&str>)
    ensures
        r is Some == path_parent(path@) is Some,
        r matches Some(dir) ==> path_parent(path@) == Some(dir@),
{
    Path::new(path).parent()?.to_str()
}

/// `std::path::Path::join`: `base` with `name` adjoined.
#[verifier::external_body]
pub(crate) fn join(base: &str, name: &str) -> (r: String)
    ensures
        r@ == path_join(base@, name@),
{
    Path::new(base).join(name).to_string_lossy().into_owned()
}

/// `std::path::Path::is_absolute`.
#[verifier::external_body]
pub(crate) fn is_absolute(path: &str) -> (r: bool)
    ensures
        r == path_is_absolute(path@),
{
    Path::new(path).is_absolute()
}

} // verus!
