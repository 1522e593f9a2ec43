//! The rules of context files, bound to the folders they were found in.
//!
//! While a tree is walked from its root down, each folder is looked at before
//! anything in it: the context files that stand in it are read, and their
//! rules, together with the rules of the folders above, are bound to the
//! folder. A path is then judged by the rules of the nearest folder above it
//! that has rules bound to it.

use crate::collector::format::{all_compile, lines_of, offender, parse, rules_in};
use crate::collector::rules::{merged, ContextPatterns, RuleText};
use crate::collector::E;
use crate::entry::ContextFileAccepted;
use crate::paths::{parent, path_parent, PathKind};
use crate::text::str_eq;
use vstd::prelude::*;
use vstd::utf8::encode_utf8;

verus! {

/// The length of `text` in bytes.
pub open spec fn byte_len(text: Seq<char>) -> nat {
    encode_utf8(text).len()
}

/// The folders above `path`, nearest first: its parent, the parent of its
/// parent, and so on, for as long as each is shorter than the one before.
pub open spec fn ancestors(path: Seq<char>) -> Seq<Seq<char>>
    decreases byte_len(path),
{
    match path_parent(path) {
        Some(dir) => if byte_len(dir) < byte_len(path) {
            seq![dir] + ancestors(dir)
        } else {
            Seq::empty()
        },
        None => Seq::empty(),
    }
}

/// Whether `path` lies under the folder `dir`.
pub open spec fn lies_under(path: Seq<char>, dir: Seq<char>) -> bool {
    ancestors(path).contains(dir)
}

/// The rules bound to `dir` in a list of bindings: those of the first binding
/// for that folder.
pub open spec fn lookup(bindings: Seq<(String, ContextPatterns)>, dir: Seq<char>) -> Option<
    ContextPatterns,
>
    decreases bindings.len(),
{
    if bindings.len() == 0 {
        None
    } else if bindings[0].0@ == dir {
        Some(bindings[0].1)
    } else {
        lookup(bindings.drop_first(), dir)
    }
}

/// The rules that the context files found in one folder hold themselves: the
/// accept rules (`accept` is true) or the ignore rules, file after file.
pub open spec fn own_rules(sources: Seq<(ContextFileAccepted, String)>, accept: bool) -> Seq<
    RuleText,
>
    decreases sources.len(),
{
    if sources.len() == 0 {
        Seq::empty()
    } else {
        own_rules(sources.drop_last(), accept) + (if (sources.last().0 is Accept) == accept {
            rules_in(sources.last().1@)
        } else {
            Seq::empty()
        })
    }
}

/// Whether every glob in every one of the files is well formed.
pub open spec fn sources_compile(sources: Seq<(ContextFileAccepted, String)>) -> bool {
    forall|i: int| 0 <= i < sources.len() ==> all_compile(rules_in((#[trigger] sources[i]).1@))
}

/// The first line of the first of the files whose glob is not well formed,
/// if there is one.
pub open spec fn first_offender(sources: Seq<(ContextFileAccepted, String)>) -> Option<Seq<char>>
    decreases sources.len(),
{
    if sources.len() == 0 {
        None
    } else {
        match offender(lines_of(sources[0].1@)) {
            Some(line) => Some(line),
            None => first_offender(sources.drop_first()),
        }
    }
}

/// `own` after inheriting from each list of `chain` in turn.
pub open spec fn inherited(own: Seq<RuleText>, chain: Seq<Seq<RuleText>>) -> Seq<RuleText>
    decreases chain.len(),
{
    if chain.len() == 0 {
        own
    } else {
        inherited(merged(own, chain[0]), chain.drop_first())
    }
}

proof fn lemma_lookup_first(bindings: Seq<(String, ContextPatterns)>, dir: Seq<char>, i: int)
    requires
        0 <= i <= bindings.len(),
        forall|j: int| 0 <= j < i ==> (#[trigger] bindings[j]).0@ != dir,
        i < bindings.len() ==> bindings[i].0@ == dir,
    ensures
        lookup(bindings, dir) == if i < bindings.len() {
            Some(bindings[i].1)
        } else {
            None
        },
    decreases bindings.len(),
{
    if bindings.len() > 0 && i > 0 {
        assert(bindings[0].0@ != dir);
        let rest = bindings.drop_first();
        assert forall|j: int| 0 <= j < i - 1 implies (#[trigger] rest[j]).0@ != dir by {
            assert(rest[j] == bindings[j + 1]);
        }
        lemma_lookup_first(rest, dir, i - 1);
    }
}

proof fn lemma_lookup_update(
    bindings: Seq<(String, ContextPatterns)>,
    i: int,
    entry: (String, ContextPatterns),
    dir: Seq<char>,
)
    requires
        0 <= i < bindings.len(),
        bindings[i].0@ == entry.0@,
        forall|j: int| 0 <= j < i ==> (#[trigger] bindings[j]).0@ != entry.0@,
    ensures
        lookup(bindings.update(i, entry), dir) == if dir == entry.0@ {
            Some(entry.1)
        } else {
            lookup(bindings, dir)
        },
    decreases bindings.len(),
{
    let updated = bindings.update(i, entry);
    if i == 0 {
        assert(updated.drop_first() =~= bindings.drop_first());
    } else {
        assert(bindings[0].0@ != entry.0@);
        let rest = bindings.drop_first();
        assert forall|j: int| 0 <= j < i - 1 implies (#[trigger] rest[j]).0@ != entry.0@ by {
            assert(rest[j] == bindings[j + 1]);
        }
        lemma_lookup_update(rest, i - 1, entry, dir);
        assert(updated.drop_first() =~= rest.update(i - 1, entry));
    }
}

proof fn lemma_lookup_push(
    bindings: Seq<(String, ContextPatterns)>,
    entry: (String, ContextPatterns),
    dir: Seq<char>,
)
    requires
        lookup(bindings, entry.0@) is None,
    ensures
        lookup(bindings.push(entry), dir) == if dir == entry.0@ {
            Some(entry.1)
        } else {
            lookup(bindings, dir)
        },
    decreases bindings.len(),
{
    let pushed = bindings.push(entry);
    if bindings.len() == 0 {
        assert(pushed.drop_first() =~= bindings);
    } else {
        lemma_lookup_push(bindings.drop_first(), entry, dir);
        assert(pushed.drop_first() =~= bindings.drop_first().push(entry));
    }
}

proof fn lemma_nearest_apart(one: &Context, other: &Context, dir: Seq<char>, dirs: Seq<Seq<char>>)
    requires
        forall|any: Seq<char>| any != dir ==> #[trigger] one.rules_at(any) == other.rules_at(any),
        !dirs.contains(dir),
    ensures
        one.nearest(dirs) == other.nearest(dirs),
    decreases dirs.len(),
{
    if dirs.len() > 0 {
        assert(dirs[0] != dir) by {
            if dirs[0] == dir {
                assert(dirs.contains(dir));
            }
        }
        let rest = dirs.drop_first();
        assert(!rest.contains(dir)) by {
            if rest.contains(dir) {
                let i = choose|i: int| 0 <= i < rest.len() && rest[i] == dir;
                assert(dirs[i + 1] == dir);
            }
        }
        lemma_nearest_apart(one, other, dir, rest);
    }
}

proof fn lemma_nearest_found(context: &Context, dir: Seq<char>, dirs: Seq<Seq<char>>)
    requires
        context.rules_at(dir) is Some,
        dirs.contains(dir),
    ensures
        context.nearest(dirs) is Some,
    decreases dirs.len(),
{
    if dirs.len() > 0 && context.rules_at(dirs[0]) is None {
        let rest = dirs.drop_first();
        let i = choose|i: int| 0 <= i < dirs.len() && dirs[i] == dir;
        assert(i > 0);
        assert(rest[i - 1] == dir);
        lemma_nearest_found(context, dir, rest);
    }
}

/// The rules bound to a folder reach no path outside it.
///
/// Let two contexts bind the same rules to every folder but `dir`. A path
/// that does not lie under `dir` is judged by the same rules in both, and so
/// passes in both or in neither.
pub proof fn theorem_rules_stay_inside(
    one: &Context,
    other: &Context,
    dir: Seq<char>,
    path: Seq<char>,
    kind: PathKind,
)
    requires
        forall|any: Seq<char>| any != dir ==> #[trigger] one.rules_at(any) == other.rules_at(any),
        !lies_under(path, dir),
    ensures
        one.effective(path) == other.effective(path),
        one.permits(path, kind) == other.permits(path, kind),
{
    lemma_nearest_apart(one, other, dir, ancestors(path));
}

/// The rules bound to a folder reach every path under it: such a path is
/// judged by rules, those of the nearest folder above it that has any.
pub proof fn theorem_rules_reach_inside(context: &Context, dir: Seq<char>, path: Seq<char>)
    requires
        context.rules_at(dir) is Some,
        lies_under(path, dir),
    ensures
        context.effective(path) is Some,
{
    lemma_nearest_found(context, dir, ancestors(path));
}

/// The context files that an entry names, and the rules bound so far: a map
/// from folders to rules, kept as a list in which no folder occurs twice.
#[derive(Debug)]
pub struct Context {
    files: Vec<ContextFileAccepted>,
    patterns: Vec<(String, ContextPatterns)>,
}

impl Context {
    /// The context files that are looked for in every folder.
    pub closed spec fn files(&self) -> Seq<ContextFileAccepted> {
        self.files@
    }

    /// The rules bound to the folder `dir`, if any.
    pub closed spec fn rules_at(&self, dir: Seq<char>) -> Option<ContextPatterns> {
        lookup(self.patterns@, dir)
    }

    /// The rules of the first of `dirs` that has rules bound to it.
    pub open spec fn nearest(&self, dirs: Seq<Seq<char>>) -> Option<ContextPatterns>
        decreases dirs.len(),
    {
        if dirs.len() == 0 {
            None
        } else {
            match self.rules_at(dirs[0]) {
                Some(rules) => Some(rules),
                None => self.nearest(dirs.drop_first()),
            }
        }
    }

    /// The rules by which `path` is judged: those of the nearest folder above
    /// it that has rules bound to it.
    pub open spec fn effective(&self, path: Seq<char>) -> Option<ContextPatterns> {
        self.nearest(ancestors(path))
    }

    /// Whether the rules let `path` pass, which leads to a thing of kind
    /// `kind`. A path that no rules apply to passes.
    pub open spec fn permits(&self, path: Seq<char>, kind: PathKind) -> bool {
        match self.effective(path) {
            Some(rules) => rules.passes(path, kind),
            None => true,
        }
    }

    /// The accept rules (`accept` is true) or the ignore rules of those of
    /// `dirs` that have rules bound to them, in the order of `dirs`.
    pub open spec fn chain(&self, dirs: Seq<Seq<char>>, accept: bool) -> Seq<Seq<RuleText>>
        decreases dirs.len(),
    {
        if dirs.len() == 0 {
            Seq::empty()
        } else {
            (match self.rules_at(dirs[0]) {
                Some(rules) => seq![
                    if accept {
                        rules.accept_rules()
                    } else {
                        rules.ignore_rules()
                    },
                ],
                None => Seq::empty(),
            }) + self.chain(dirs.drop_first(), accept)
        }
    }

    /// Whether this context binds the same rules to every folder as `before`.
    pub open spec fn keeps(&self, before: &Context) -> bool {
        forall|other: Seq<char>| #[trigger] self.rules_at(other) == before.rules_at(other)
    }

    /// Whether this context is what `before` becomes once the folder `dir`,
    /// in which the context files `sources` stand, has been considered.
    ///
    /// Where the files hold no rule, nothing changes. Else `dir` is bound to
    /// the rules of the files, followed by what they inherit from the folders
    /// above `dir`, nearest first; every other folder keeps its rules.
    pub open spec fn follows(
        &self,
        before: &Context,
        dir: Seq<char>,
        sources: Seq<(ContextFileAccepted, String)>,
    ) -> bool {
        if own_rules(sources, true).len() == 0 && own_rules(sources, false).len() == 0 {
            self.keeps(before)
        } else {
            &&& self.rules_at(dir) matches Some(rules) && rules.accept_rules() == inherited(
                own_rules(sources, true),
                before.chain(ancestors(dir), true),
            ) && rules.ignore_rules() == inherited(
                own_rules(sources, false),
                before.chain(ancestors(dir), false),
            )
            &&& forall|other: Seq<char>|
                other != dir ==> #[trigger] self.rules_at(other) == before.rules_at(other)
        }
    }

    /// No folder is bound twice: the bindings are a map from folders to
    /// rules.
    #[verifier::type_invariant]
    spec fn bound_once(&self) -> bool {
        forall|i: int, j: int|
            0 <= i < j < self.patterns@.len() ==> self.patterns@[i].0@ != self.patterns@[j].0@
    }

    /// A context for the given context files, with no rules bound yet.
    pub fn new(files: &Vec<ContextFileAccepted>) -> (r: Self)
        ensures
            r.files() == files@,
            forall|dir: Seq<char>| r.rules_at(dir) is None,
    {
        let mut copy: Vec<ContextFileAccepted> = Vec::new();
        let mut i: usize = 0;
        while i < files.len()
            invariant
                i <= files@.len(),
                copy@ == files@.take(i as int),
            decreases files@.len() - i,
        {
            copy.push(files[i].clone());
            assert(files@.take(i + 1) =~= files@.take(i as int).push(files@[i as int]));
            i += 1;
        }
        assert(files@.take(i as int) =~= files@);
        Context { files: copy, patterns: Vec::new() }
    }

    /// The context files that are looked for in every folder.
    pub fn names(&self) -> (r: &Vec<ContextFileAccepted>)
        ensures
            r@ == self.files(),
    {
        &self.files
    }

    fn position(&self, dir: &str) -> (r: Option<usize>)
        ensures
            r matches Some(i) ==> i < self.patterns@.len() && self.patterns@[i as int].0@ == dir@
                && (forall|j: int| 0 <= j < i ==> (#[trigger] self.patterns@[j]).0@ != dir@)
                && self.rules_at(dir@) == Some(self.patterns@[i as int].1),
            r is None ==> self.rules_at(dir@) is None && forall|j: int|
                0 <= j < self.patterns@.len() ==> (#[trigger] self.patterns@[j]).0@ != dir@,
    {
        let mut i: usize = 0;
        while i < self.patterns.len()
            invariant
                i <= self.patterns@.len(),
                forall|j: int| 0 <= j < i ==> (#[trigger] self.patterns@[j]).0@ != dir@,
            decreases self.patterns@.len() - i,
        {
            if str_eq(self.patterns[i].0.as_str(), dir) {
                proof {
                    lemma_lookup_first(self.patterns@, dir@, i as int);
                }
                return Some(i);
            }
            i += 1;
        }
        proof {
            lemma_lookup_first(self.patterns@, dir@, i as int);
        }
        None
    }

    /// Binds rules to the folder `dir`, which is about to be walked.
    ///
    /// `sources` holds the context files that stand in `dir`, each with its
    /// content, in the order of the context files of the entry. The call
    /// fails, and binds nothing, exactly where a glob in one of the files is
    /// not well formed. Where the files hold no rule, nothing is bound either.
    /// Else the rules of the files, followed by what they inherit from the
    /// folders above, nearest first, are bound to `dir`; the rules of every
    /// other folder stay as they are.
    pub fn consider(&mut self, dir: &str, sources: &Vec<(ContextFileAccepted, String)>) -> (r:
        Result<(), E>)
        ensures
            final(self).files() == old(self).files(),
            r is Ok <==> sources_compile(sources@),
            r matches Err(err) ==> (err matches E::PatternError(line, _) && first_offender(sources@)
                == Some(line@)),
            r is Ok ==> final(self).follows(old(self), dir@, sources@),
            r is Err ==> final(self).keeps(old(self)),
    {
        let mut own = ContextPatterns::new();
        let mut i: usize = 0;
        assert(sources@.take(0) =~= Seq::<(ContextFileAccepted, String)>::empty());
        assert(sources@.skip(0) =~= sources@);
        while i < sources.len()
            invariant
                i <= sources@.len(),
                own.accept_rules() == own_rules(sources@.take(i as int), true),
                own.ignore_rules() == own_rules(sources@.take(i as int), false),
                forall|j: int| 0 <= j < i ==> all_compile(rules_in((#[trigger] sources@[j]).1@)),
                first_offender(sources@) == first_offender(sources@.skip(i as int)),
                self.files@ == old(self).files@,
                self.patterns@ == old(self).patterns@,
            decreases sources@.len() - i,
        {
            proof {
                assert(sources@.take(i + 1).drop_last() =~= sources@.take(i as int));
                assert(sources@.take(i + 1).last() == sources@[i as int]);
                assert(sources@.skip(i as int)[0] == sources@[i as int]);
                assert(sources@.skip(i as int).drop_first() =~= sources@.skip(i + 1));
                crate::collector::format::lemma_offender(lines_of(sources@[i as int].1@));
            }
            match parse(sources[i].1.as_str()) {
                Ok(rules) => {
                    own.append(&sources[i].0, rules);
                },
                Err(err) => {
                    return Err(err);
                },
            }
            i += 1;
        }
        assert(sources@.take(i as int) =~= sources@);
        if own.is_empty() {
            return Ok(());
        }
        let mut current: &str = dir;
        loop
            invariant
                self.files@ == old(self).files@,
                self.patterns@ == old(self).patterns@,
                inherited(own.accept_rules(), self.chain(ancestors(current@), true)) == inherited(
                    own_rules(sources@, true),
                    old(self).chain(ancestors(dir@), true),
                ),
                inherited(own.ignore_rules(), self.chain(ancestors(current@), false)) == inherited(
                    own_rules(sources@, false),
                    old(self).chain(ancestors(dir@), false),
                ),
            ensures
                self.files@ == old(self).files@,
                self.patterns@ == old(self).patterns@,
                own.accept_rules() == inherited(
                    own_rules(sources@, true),
                    old(self).chain(ancestors(dir@), true),
                ),
                own.ignore_rules() == inherited(
                    own_rules(sources@, false),
                    old(self).chain(ancestors(dir@), false),
                ),
            decreases byte_len(current@),
        {
            match parent(current) {
                Some(above) => {
                    if above.as_bytes().len() >= current.as_bytes().len() {
                        break ;
                    }
                    proof {
                        let dirs = ancestors(current@);
                        assert(dirs[0] == above@);
                        assert(dirs.drop_first() =~= ancestors(above@));
                    }
                    match self.position(above) {
                        Some(at) => {
                            own.merge(&self.patterns[at].1);
                            proof {
                                let dirs = ancestors(current@);
                                assert(self.chain(dirs, true).drop_first() =~= self.chain(
                                    ancestors(above@),
                                    true,
                                ));
                                assert(self.chain(dirs, false).drop_first() =~= self.chain(
                                    ancestors(above@),
                                    false,
                                ));
                            }
                        },
                        None => {
                            proof {
                                let dirs = ancestors(current@);
                                assert(self.chain(dirs, true) =~= self.chain(
                                    ancestors(above@),
                                    true,
                                ));
                                assert(self.chain(dirs, false) =~= self.chain(
                                    ancestors(above@),
                                    false,
                                ));
                            }
                        },
                    }
                    current = above;
                },
                None => {
                    break ;
                },
            }
        }
        let key = dir.to_owned();
        let at = self.position(dir);
        proof {
            use_type_invariant(&*self);
        }
        let ghost bound = self.patterns@;
        let mut bindings: Vec<(String, ContextPatterns)> = Vec::new();
        std::mem::swap(&mut bindings, &mut self.patterns);
        match at {
            Some(at) => {
                proof {
                    assert forall|other: Seq<char>|
                        #[trigger] lookup(bound.update(at as int, (key, own)), other) == if other
                            == dir@ {
                            Some(own)
                        } else {
                            lookup(bound, other)
                        } by {
                        lemma_lookup_update(bound, at as int, (key, own), other);
                    }
                }
                bindings.set(at, (key, own));
            },
            None => {
                proof {
                    assert forall|other: Seq<char>|
                        #[trigger] lookup(bound.push((key, own)), other) == if other == dir@ {
                            Some(own)
                        } else {
                            lookup(bound, other)
                        } by {
                        lemma_lookup_push(bound, (key, own), other);
                    }
                }
                bindings.push((key, own));
            },
        }
        self.patterns = bindings;
        Ok(())
    }

    /// Whether the rules let `path` pass, which leads to a thing of kind
    /// `kind`.
    pub fn filtered(&self, path: &str, kind: PathKind) -> (r: bool)
        ensures
            r == self.permits(path@, kind),
    {
        let mut current: &str = path;
        loop
            invariant
                self.effective(path@) == self.nearest(ancestors(current@)),
            decreases byte_len(current@),
        {
            match parent(current) {
                Some(above) => {
                    if above.as_bytes().len() >= current.as_bytes().len() {
                        return true;
                    }
                    proof {
                        let dirs = ancestors(current@);
                        assert(dirs[0] == above@);
                        assert(dirs.drop_first() =~= ancestors(above@));
                    }
                    match self.position(above) {
                        Some(at) => {
                            return self.patterns[at].1.filtered(path, kind);
                        },
                        None => {},
                    }
                    current = above;
                },
                None => {
                    return true;
                },
            }
        }
    }
}

} // verus!
