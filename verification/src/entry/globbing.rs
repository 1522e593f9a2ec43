//! Compiled glob patterns.

use crate::text::str_eq;
use glob::{Pattern, PatternError};
use std::path::Path;
use vstd::prelude::*;

verus! {

#[verifier::external_type_specification]
#[verifier::external_body]
pub struct ExPattern(Pattern);

#[verifier::external_type_specification]
#[verifier::external_body]
pub struct ExPatternError(PatternError);

/// The text that a compiled pattern was built from.
pub uninterp spec fn pattern_source(pattern: &Pattern) -> Seq<char>;

/// Whether `text` is a well-formed glob.
pub uninterp spec fn glob_compiles(text: Seq<char>) -> bool;

/// Whether the glob written as `source` matches the whole of `path`.
pub uninterp spec fn glob_matches(source: Seq<char>, path: Seq<char>) -> bool;

/// `glob::Pattern::new`: compiles `text`. It succeeds exactly on the texts
/// that `glob_compiles` names, and the pattern it returns remembers `text`.
#[verifier::external_body]
fn compile(text: &str) -> (r: Result<Pattern, PatternError>)
    ensures
        r is Ok <==> glob_compiles(text@),
        r matches Ok(p) ==> pattern_source(&p) == text@,
{
    Pattern::new(text)
}

/// `glob::Pattern::matches_path`: whether the pattern matches the whole of
/// `path`, under the default match options. The answer depends on the
/// pattern's text and the path alone.
#[verifier::external_body]
fn matches_path(pattern: &Pattern, path: &str) -> (r: bool)
    ensures
        r == glob_matches(pattern_source(pattern), path@),
{
    pattern.matches_path(Path::new(path))
}

/// `glob::Pattern::as_str`: the text the pattern was compiled from.
#[verifier::external_body]
fn source(pattern: &Pattern) -> (r: &str)
    ensures
        r@ == pattern_source(pattern),
{
    pattern.as_str()
}

/// `<glob::Pattern as Clone>::clone`: a pattern compiled from the same text.
#[verifier::external_body]
fn duplicate(pattern: &Pattern) -> (r: Pattern)
    ensures
        pattern_source(&r) == pattern_source(pattern),
{
    pattern.clone()
}

/// A compiled glob. Its view is the text it was compiled from, and that text
/// alone decides what it matches.
#[derive(Debug)]
pub struct Glob {
    pattern: Pattern,
}

impl View for Glob {
    type V = Seq<char>;

    closed spec fn view(&self) -> Seq<char> {
        pattern_source(&self.pattern)
    }
}

impl Glob {
    /// Compiles `text`; fails exactly where `text` is no well-formed glob.
    pub fn new(text: &str) -> (r: Result<Glob, PatternError>)
        ensures
            r is Ok <==> glob_compiles(text@),
            r matches Ok(g) ==> g@ == text@,
    {
        match compile(text) {
            Ok(pattern) => Ok(Glob { pattern }),
            Err(err) => Err(err),
        }
    }

    /// Whether the glob matches the whole of `path`.
    pub fn matches(&self, path: &str) -> (r: bool)
        ensures
            r == glob_matches(self@, path@),
    {
        matches_path(&self.pattern, path)
    }

    /// The text the glob was compiled from.
    pub fn as_str(&self) -> (r: &str)
        ensures
            r@ == self@,
    {
        source(&self.pattern)
    }

    /// Whether two globs were compiled from the same text.
    pub fn same(&self, other: &Glob) -> (r: bool)
        ensures
            r == (self@ == other@),
    {
        str_eq(self.as_str(), other.as_str())
    }
}

impl Clone for Glob {
    fn clone(&self) -> (r: Self)
        ensures
            r@ == self@,
    {
        Glob { pattern: duplicate(&self.pattern) }
    }
}

} // verus!
