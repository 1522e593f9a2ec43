//! The rules that context files contribute, and what they say of a path.

use crate::entry::globbing::{glob_matches, Glob};
use crate::entry::ContextFileAccepted;
use crate::paths::PathKind;
use vstd::prelude::*;

verus! {

/// One line of a context file: a glob, and whether the line began with `!`.
#[derive(Debug)]
pub struct Rule {
    /// The glob of the line.
    pub glob: Glob,
    /// Whether the rule is negative, that is, written with a leading `!`.
    pub negative: bool,
}

/// A rule as plain values: the text of its glob, and whether it is negative.
pub type RuleText = (Seq<char>, bool);

impl View for Rule {
    type V = RuleText;

    open spec fn view(&self) -> RuleText {
        (self.glob@, self.negative)
    }
}

impl Clone for Rule {
    fn clone(&self) -> (r: Self)
        ensures
            r@ == self@,
    {
        Rule { glob: self.glob.clone(), negative: self.negative }
    }
}

/// The rules of a list as plain values: the text of each glob and its sign.
pub open spec fn rule_views(rules: Seq<Rule>) -> Seq<RuleText> {
    rules.map_values(|rule: Rule| rule@)
}

/// Whether `path` is matched by a rule of `rules` with the given sign.
pub open spec fn some_rule_matches(
    rules: Seq<RuleText>,
    path: Seq<char>,
    negative: bool,
) -> bool {
    exists|i: int|
        0 <= i < rules.len() && (#[trigger] rules[i]).1 == negative && glob_matches(
            rules[i].0,
            path,
        )
}

/// Whether the list holds a rule with the glob `text`, whatever its sign.
pub open spec fn holds_glob(rules: Seq<RuleText>, text: Seq<char>) -> bool {
    exists|i: int| 0 <= i < rules.len() && (#[trigger] rules[i]).0 == text
}

/// `own` followed by the rules of `inherited` whose glob is not yet in the
/// list: what is there first stays, and no glob comes twice from inheriting.
pub open spec fn merged(own: Seq<RuleText>, inherited: Seq<RuleText>) -> Seq<RuleText>
    decreases inherited.len(),
{
    if inherited.len() == 0 {
        own
    } else {
        let before = merged(own, inherited.drop_last());
        if holds_glob(before, inherited.last().0) {
            before
        } else {
            before.push(inherited.last())
        }
    }
}

/// What the rules say of `path`, which leads to a thing of kind `kind`.
///
/// Without rules every path passes. A path that a negative ignore rule
/// matches passes where there are no accept rules. Else a path that an ignore
/// rule matches fails. Of the rest, everything passes where there are no
/// accept rules, and everything that is no file; a file passes where no
/// negative accept rule matches it and some accept rule does.
pub open spec fn rules_pass(
    accept: Seq<RuleText>,
    ignore: Seq<RuleText>,
    path: Seq<char>,
    kind: PathKind,
) -> bool {
    if ignore.len() == 0 && accept.len() == 0 {
        true
    } else if some_rule_matches(ignore, path, true) && accept.len() == 0 {
        true
    } else if some_rule_matches(ignore, path, false) {
        false
    } else if accept.len() == 0 {
        true
    } else if kind != PathKind::File {
        true
    } else if some_rule_matches(accept, path, true) {
        false
    } else {
        some_rule_matches(accept, path, false)
    }
}

fn any_rule_matches(rules: &Vec<Rule>, path: &str, negative: bool) -> (r: bool)
    ensures
        r == some_rule_matches(rule_views(rules@), path@, negative),
{
    let mut i: usize = 0;
    while i < rules.len()
        invariant
            i <= rules@.len(),
            forall|j: int|
                0 <= j < i ==> !((#[trigger] rule_views(rules@)[j]).1 == negative && glob_matches(
                    rule_views(rules@)[j].0,
                    path@,
                )),
        decreases rules@.len() - i,
    {
        if rules[i].negative == negative && rules[i].glob.matches(path) {
            assert(rule_views(rules@)[i as int] == rules@[i as int]@);
            return true;
        }
        assert(rule_views(rules@)[i as int] == rules@[i as int]@);
        i += 1;
    }
    false
}

fn has_glob(rules: &Vec<Rule>, glob: &Glob) -> (r: bool)
    ensures
        r == holds_glob(rule_views(rules@), glob@),
{
    let mut i: usize = 0;
    while i < rules.len()
        invariant
            i <= rules@.len(),
            forall|j: int| 0 <= j < i ==> (#[trigger] rule_views(rules@)[j]).0 != glob@,
        decreases rules@.len() - i,
    {
        assert(rule_views(rules@)[i as int] == rules@[i as int]@);
        if rules[i].glob.same(glob) {
            return true;
        }
        i += 1;
    }
    false
}

fn merge_rules(own: &mut Vec<Rule>, inherited: &Vec<Rule>)
    ensures
        rule_views(final(own)@) == merged(rule_views(old(own)@), rule_views(inherited@)),
{
    let mut i: usize = 0;
    assert(rule_views(inherited@).take(0) =~= Seq::<RuleText>::empty());
    while i < inherited.len()
        invariant
            i <= inherited@.len(),
            rule_views(own@) == merged(rule_views(old(own)@), rule_views(inherited@).take(i as int)),
        decreases inherited@.len() - i,
    {
        proof {
            let views = rule_views(inherited@);
            assert(views.take(i + 1).drop_last() =~= views.take(i as int));
            assert(views.take(i + 1).last() == inherited@[i as int]@);
        }
        if !has_glob(own, &inherited[i].glob) {
            let ghost before = own@;
            let rule = inherited[i].clone();
            own.push(rule);
            assert(rule_views(own@) =~= rule_views(before).push(inherited@[i as int]@));
        }
        i += 1;
    }
    assert(rule_views(inherited@).take(i as int) =~= rule_views(inherited@));
}

/// The rules in force in one folder: the accept rules and the ignore rules.
#[derive(Debug)]
pub struct ContextPatterns {
    accept: Vec<Rule>,
    ignore: Vec<Rule>,
}

impl ContextPatterns {
    /// The accept rules, in order.
    pub closed spec fn accept_rules(&self) -> Seq<RuleText> {
        rule_views(self.accept@)
    }

    /// The ignore rules, in order.
    pub closed spec fn ignore_rules(&self) -> Seq<RuleText> {
        rule_views(self.ignore@)
    }

    /// Whether there is no rule at all.
    pub open spec fn is_blank(&self) -> bool {
        self.accept_rules().len() == 0 && self.ignore_rules().len() == 0
    }

    /// What the rules say of `path`: see [`rules_pass`].
    pub open spec fn passes(&self, path: Seq<char>, kind: PathKind) -> bool {
        rules_pass(self.accept_rules(), self.ignore_rules(), path, kind)
    }

    /// No rules.
    pub fn new() -> (r: Self)
        ensures
            r.accept_rules() == Seq::<RuleText>::empty(),
            r.ignore_rules() == Seq::<RuleText>::empty(),
    {
        let r = ContextPatterns { accept: Vec::new(), ignore: Vec::new() };
        assert(rule_views(r.accept@) =~= Seq::<RuleText>::empty());
        assert(rule_views(r.ignore@) =~= Seq::<RuleText>::empty());
        r
    }

    /// Adds the rules read from one context file, behind those that are
    /// there: to the accept rules or to the ignore rules, as the file says.
    pub fn append(&mut self, context_file: &ContextFileAccepted, rules: Vec<Rule>)
        ensures
            final(self).accept_rules() == if context_file is Accept {
                old(self).accept_rules() + rule_views(rules@)
            } else {
                old(self).accept_rules()
            },
            final(self).ignore_rules() == if context_file is Ignore {
                old(self).ignore_rules() + rule_views(rules@)
            } else {
                old(self).ignore_rules()
            },
    {
        let mut rules = rules;
        let ghost added = rules@;
        match context_file {
            ContextFileAccepted::Accept(_) => {
                let ghost before = self.accept@;
                self.accept.append(&mut rules);
                assert(rule_views(self.accept@) =~= rule_views(before) + rule_views(added));
            },
            ContextFileAccepted::Ignore(_) => {
                let ghost before = self.ignore@;
                self.ignore.append(&mut rules);
                assert(rule_views(self.ignore@) =~= rule_views(before) + rule_views(added));
            },
        }
    }

    /// Inherits the rules of a folder further up: each of its rules whose
    /// glob is not here yet is added behind the rules that are here.
    pub fn merge(&mut self, inherited: &ContextPatterns)
        ensures
            final(self).accept_rules() == merged(
                old(self).accept_rules(),
                inherited.accept_rules(),
            ),
            final(self).ignore_rules() == merged(
                old(self).ignore_rules(),
                inherited.ignore_rules(),
            ),
    {
        merge_rules(&mut self.accept, &inherited.accept);
        merge_rules(&mut self.ignore, &inherited.ignore);
    }

    /// Whether there is no rule at all.
    pub fn is_empty(&self) -> (r: bool)
        ensures
            r == self.is_blank(),
    {
        self.accept.is_empty() && self.ignore.is_empty()
    }

    /// Whether the rules let `path` pass, which leads to a thing of kind
    /// `kind`.
    pub fn filtered(&self, path: &str, kind: PathKind) -> (r: bool)
        ensures
            r == self.passes(path@, kind),
    {
        if self.ignore.is_empty() && self.accept.is_empty() {
            return true;
        }
        if self.accept.is_empty() && any_rule_matches(&self.ignore, path, true) {
            return true;
        }
        if any_rule_matches(&self.ignore, path, false) {
            return false;
        }
        if self.accept.is_empty() {
            return true;
        }
        match kind {
            PathKind::File => {},
            _ => {
                return true;
            },
        }
        if any_rule_matches(&self.accept, path, true) {
            return false;
        }
        any_rule_matches(&self.accept, path, false)
    }
}

} // verus!
