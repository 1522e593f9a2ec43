//! Filters by glob alone: the glob is applied to the whole path, whatever the
//! path leads to.

use crate::entry::globbing::{glob_compiles, glob_matches, Glob};
use crate::entry::E;
use crate::text::{join, joined, texts};
use vstd::prelude::*;

verus! {

/// A pattern filter as it is written.
#[derive(Debug)]
pub enum PatternFilter {
    /// Paths that the glob matches are rejected.
    Ignore(String),
    /// Paths that the glob matches are accepted.
    Accept(String),
    /// Every filter of the list must accept. A combination holds no other
    /// combination.
    Cmb(Vec<PatternFilter>),
}

impl PatternFilter {
    /// Whether the filter is a single glob, no combination.
    pub open spec fn is_single(&self) -> bool {
        !(self is Cmb)
    }

    /// The glob of a single filter, as text.
    pub open spec fn text(&self) -> Seq<char> {
        match self {
            PatternFilter::Ignore(s) => s@,
            PatternFilter::Accept(s) => s@,
            PatternFilter::Cmb(_) => Seq::empty(),
        }
    }

    /// Whether a single filter can be compiled.
    pub open spec fn single_compiles(&self) -> bool {
        self.is_single() && glob_compiles(self.text())
    }

    /// Whether the filter can be accepted: a single filter whose glob
    /// compiles, or a combination of such filters.
    pub open spec fn acceptable(&self) -> bool {
        match self {
            PatternFilter::Cmb(parts) => forall|i: int|
                0 <= i < parts@.len() ==> (#[trigger] parts@[i]).single_compiles(),
            _ => glob_compiles(self.text()),
        }
    }

    /// Whether `err` is the error with which compiling this filter, taken as
    /// a single filter, is refused: a combination in this place is nested,
    /// and any other filter has a glob that is not well formed.
    pub open spec fn single_refused_with(&self, err: E) -> bool {
        if self.is_single() {
            err matches E::PatternError(text, _) && text@ == self.text()
        } else {
            err is NestedCombination
        }
    }

    /// Whether `err` is the error with which compiling this filter is
    /// refused: that of the first of its parts that cannot be compiled.
    pub open spec fn refused_with(&self, err: E) -> bool {
        match self {
            PatternFilter::Cmb(parts) => exists|i: int|
                0 <= i < parts@.len() && !(#[trigger] parts@[i]).single_compiles()
                    && parts@[i].single_refused_with(err) && forall|j: int|
                    0 <= j < i ==> (#[trigger] parts@[j]).single_compiles(),
            _ => self.single_refused_with(err),
        }
    }

    /// Compiles a single filter.
    fn accept_single(self) -> (r: Result<PatternFilterAccepted, E>)
        ensures
            r is Ok <==> self.single_compiles(),
            r matches Ok(accepted) ==> accepted.is_single() && accepted.text() == self.text() && (
            accepted is Ignore <==> self is Ignore),
            r matches Err(err) ==> self.single_refused_with(err),
    {
        match self {
            PatternFilter::Ignore(s) => match Glob::new(s.as_str()) {
                Ok(glob) => Ok(PatternFilterAccepted::Ignore(glob)),
                Err(err) => Err(E::PatternError(s, err)),
            },
            PatternFilter::Accept(s) => match Glob::new(s.as_str()) {
                Ok(glob) => Ok(PatternFilterAccepted::Accept(glob)),
                Err(err) => Err(E::PatternError(s, err)),
            },
            PatternFilter::Cmb(_) => Err(E::NestedCombination),
        }
    }

    /// Compiles the filter. It succeeds exactly on the filters that are
    /// [`PatternFilter::acceptable`]; what comes out is well formed, of the
    /// same shape, and holds the same globs.
    #[verifier::loop_isolation(false)]
    pub fn accept(self) -> (r: Result<PatternFilterAccepted, E>)
        ensures
            r is Ok <==> self.acceptable(),
            r matches Ok(accepted) ==> accepted.wf() && accepted.mirrors(&self),
            r matches Err(err) ==> self.refused_with(err),
    {
        match self {
            PatternFilter::Cmb(parts) => {
                let mut accepted: Vec<PatternFilterAccepted> = Vec::new();
                for part in it: parts.into_iter()
                    invariant
                        it.seq() == parts@,
                        accepted@.len() == it.index(),
                        forall|i: int|
                            0 <= i < it.index() ==> (#[trigger] parts@[i]).single_compiles(),
                        forall|i: int|
                            0 <= i < it.index() ==> (#[trigger] accepted@[i]).is_single()
                                && accepted@[i].text() == parts@[i].text() && (accepted@[i]
                                is Ignore <==> parts@[i] is Ignore),
                {
                    match part.accept_single() {
                        Ok(single) => accepted.push(single),
                        Err(err) => {
                            assert(!parts@[it.index()].single_compiles());
                            assert(parts@[it.index()].single_refused_with(err));
                            return Err(err);
                        },
                    }
                }
                Ok(PatternFilterAccepted::Cmb(accepted))
            },
            single => single.accept_single(),
        }
    }
}

/// A pattern filter whose globs are compiled.
#[derive(Debug)]
pub enum PatternFilterAccepted {
    /// Paths that the glob matches are rejected.
    Ignore(Glob),
    /// Paths that the glob matches are accepted.
    Accept(Glob),
    /// Every filter of the list must accept.
    Cmb(Vec<PatternFilterAccepted>),
}

impl PatternFilterAccepted {
    /// Whether the filter is a single glob, no combination.
    pub open spec fn is_single(&self) -> bool {
        !(self is Cmb)
    }

    /// The glob of a single filter, as text.
    pub open spec fn text(&self) -> Seq<char> {
        match self {
            PatternFilterAccepted::Ignore(g) => g@,
            PatternFilterAccepted::Accept(g) => g@,
            PatternFilterAccepted::Cmb(_) => Seq::empty(),
        }
    }

    /// Well-formedness: a combination holds single filters only.
    pub open spec fn wf(&self) -> bool {
        match self {
            PatternFilterAccepted::Cmb(parts) => forall|i: int|
                0 <= i < parts@.len() ==> (#[trigger] parts@[i]).is_single(),
            _ => true,
        }
    }

    /// Whether this filter is the compiled form of `written`.
    pub open spec fn mirrors(&self, written: &PatternFilter) -> bool {
        match (self, written) {
            (PatternFilterAccepted::Cmb(parts), PatternFilter::Cmb(texts)) => {
                &&& parts@.len() == texts@.len()
                &&& forall|i: int|
                    0 <= i < parts@.len() ==> (#[trigger] parts@[i]).text() == texts@[i].text() && (
                    parts@[i] is Ignore <==> texts@[i] is Ignore)
            },
            (PatternFilterAccepted::Ignore(g), PatternFilter::Ignore(s)) => g@ == s@,
            (PatternFilterAccepted::Accept(g), PatternFilter::Accept(s)) => g@ == s@,
            _ => false,
        }
    }

    /// Whether a single filter accepts `path`: an `Ignore` where its glob does
    /// not match, an `Accept` where it does.
    pub open spec fn single_accepts(&self, path: Seq<char>) -> bool {
        match self {
            PatternFilterAccepted::Ignore(g) => !glob_matches(g@, path),
            PatternFilterAccepted::Accept(g) => glob_matches(g@, path),
            PatternFilterAccepted::Cmb(_) => false,
        }
    }

    /// Whether the filter accepts `path`. A combination accepts where every
    /// one of its filters does.
    pub open spec fn accepts(&self, path: Seq<char>) -> bool {
        match self {
            PatternFilterAccepted::Cmb(parts) => forall|i: int|
                0 <= i < parts@.len() ==> (#[trigger] parts@[i]).single_accepts(path),
            _ => self.single_accepts(path),
        }
    }

    /// Whether two filters have the same shape and hold the same globs.
    pub open spec fn same_as(&self, other: &PatternFilterAccepted) -> bool {
        match (self, other) {
            (PatternFilterAccepted::Cmb(a), PatternFilterAccepted::Cmb(b)) => {
                &&& a@.len() == b@.len()
                &&& forall|i: int|
                    0 <= i < a@.len() ==> (#[trigger] a@[i]).same_single(&b@[i])
            },
            _ => self.same_single(other),
        }
    }

    /// Whether two single filters are of the same kind and hold the same glob.
    pub open spec fn same_single(&self, other: &PatternFilterAccepted) -> bool {
        match (self, other) {
            (PatternFilterAccepted::Ignore(a), PatternFilterAccepted::Ignore(b)) => a@ == b@,
            (PatternFilterAccepted::Accept(a), PatternFilterAccepted::Accept(b)) => a@ == b@,
            _ => false,
        }
    }

    /// The texts of the globs of single filters.
    pub open spec fn part_labels(parts: Seq<PatternFilterAccepted>) -> Seq<Seq<char>> {
        parts.map_values(|part: PatternFilterAccepted| part.text())
    }

    /// The filter written out: the text of its glob, or for a combination the
    /// texts of its globs with `,` between them.
    pub open spec fn label(&self) -> Seq<char> {
        match self {
            PatternFilterAccepted::Cmb(parts) => joined(Self::part_labels(parts@), ","@),
            _ => self.text(),
        }
    }

    /// Computes [`PatternFilterAccepted::label`].
    pub fn to_text(&self) -> (r: String)
        ensures
            r@ == self.label(),
    {
        match self {
            PatternFilterAccepted::Ignore(glob) => glob.as_str().to_owned(),
            PatternFilterAccepted::Accept(glob) => glob.as_str().to_owned(),
            PatternFilterAccepted::Cmb(parts) => {
                let mut labels: Vec<String> = Vec::new();
                let mut i: usize = 0;
                while i < parts.len()
                    invariant
                        i <= parts@.len(),
                        texts(labels@) == Self::part_labels(parts@.take(i as int)),
                    decreases parts@.len() - i,
                {
                    let label = match &parts[i] {
                        PatternFilterAccepted::Ignore(glob) => glob.as_str().to_owned(),
                        PatternFilterAccepted::Accept(glob) => glob.as_str().to_owned(),
                        PatternFilterAccepted::Cmb(_) => String::new(),
                    };
                    proof {
                        assert(parts@.take(i + 1) =~= parts@.take(i as int).push(parts@[i as int]));
                        assert(texts(labels@.push(label)) =~= texts(labels@).push(label@));
                        assert(Self::part_labels(parts@.take(i + 1)) =~= Self::part_labels(
                            parts@.take(i as int),
                        ).push(parts@[i as int].text()));
                    }
                    labels.push(label);
                    i += 1;
                }
                assert(parts@.take(i as int) =~= parts@);
                join(&labels, ",")
            },
        }
    }

    fn single_filtered(&self, path: &str) -> (r: bool)
        ensures
            r == self.single_accepts(path@),
    {
        match self {
            PatternFilterAccepted::Ignore(glob) => !glob.matches(path),
            PatternFilterAccepted::Accept(glob) => glob.matches(path),
            PatternFilterAccepted::Cmb(_) => false,
        }
    }

    /// Computes [`PatternFilterAccepted::accepts`].
    #[verifier::loop_isolation(false)]
    pub fn filtered(&self, path: &str) -> (r: bool)
        ensures
            r == self.accepts(path@),
    {
        match self {
            PatternFilterAccepted::Cmb(parts) => {
                let mut i: usize = 0;
                while i < parts.len()
                    invariant
                        i <= parts@.len(),
                        forall|j: int| 0 <= j < i ==> (#[trigger] parts@[j]).single_accepts(path@),
                    decreases parts@.len() - i,
                {
                    if !parts[i].single_filtered(path) {
                        assert(!parts@[i as int].single_accepts(path@));
                        return false;
                    }
                    i += 1;
                }
                true
            },
            single => single.single_filtered(path),
        }
    }

    fn single_same(&self, other: &PatternFilterAccepted) -> (r: bool)
        ensures
            r == self.same_single(other),
    {
        match (self, other) {
            (PatternFilterAccepted::Ignore(a), PatternFilterAccepted::Ignore(b)) => a.same(b),
            (PatternFilterAccepted::Accept(a), PatternFilterAccepted::Accept(b)) => a.same(b),
            _ => false,
        }
    }

    /// Computes [`PatternFilterAccepted::same_as`].
    #[verifier::loop_isolation(false)]
    pub fn same(&self, other: &PatternFilterAccepted) -> (r: bool)
        ensures
            r == self.same_as(other),
    {
        match (self, other) {
            (PatternFilterAccepted::Cmb(a), PatternFilterAccepted::Cmb(b)) => {
                if a.len() != b.len() {
                    return false;
                }
                let mut i: usize = 0;
                while i < a.len()
                    invariant
                        a@.len() == b@.len(),
                        i <= a@.len(),
                        forall|j: int| 0 <= j < i ==> (#[trigger] a@[j]).same_single(&b@[j]),
                    decreases a@.len() - i,
                {
                    if !a[i].single_same(&b[i]) {
                        assert(!a@[i as int].same_single(&b@[i as int]));
                        return false;
                    }
                    i += 1;
                }
                true
            },
            _ => self.single_same(other),
        }
    }
}

} // verus!
