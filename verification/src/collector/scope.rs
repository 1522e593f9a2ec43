//! How far the rules of a context file reach.
//!
//! Rules are bound to folders from the root down: a folder is considered
//! before anything in it. The theorems of this file say what follows: the
//! rules found in a folder are in force for everything under the folder,
//! however deep, and for nothing else.

use crate::collector::context::{
    ancestors, byte_len, inherited, lies_under, own_rules, Context,
};
use crate::collector::rules::{holds_glob, merged, rules_pass, RuleText};
use crate::entry::ContextFileAccepted;
use crate::paths::{path_parent, PathKind};
use vstd::prelude::*;

verus! {

/// Whether every glob of `of` occurs in `rules`.
pub open spec fn holds_all(rules: Seq<RuleText>, of: Seq<RuleText>) -> bool {
    forall|text: Seq<char>| holds_glob(of, text) ==> holds_glob(rules, text)
}

/// Whether, of any two folders with rules of which one lies under the other,
/// the lower holds every glob of the upper.
pub open spec fn inheriting(context: &Context) -> bool {
    forall|above: Seq<char>, below: Seq<char>|
        #![trigger context.rules_at(above), context.rules_at(below)]
        (context.rules_at(above) is Some && context.rules_at(below) is Some && lies_under(
            below,
            above,
        )) ==> holds_all(
            context.rules_at(below)->0.ignore_rules(),
            context.rules_at(above)->0.ignore_rules(),
        ) && holds_all(
            context.rules_at(below)->0.accept_rules(),
            context.rules_at(above)->0.accept_rules(),
        )
}

/// Whether no folder under `dir` has rules yet.
pub open spec fn nothing_below(context: &Context, dir: Seq<char>) -> bool {
    forall|below: Seq<char>| #[trigger]
        context.rules_at(below) is Some ==> !lies_under(below, dir)
}

proof fn lemma_push_holds(rules: Seq<RuleText>, rule: RuleText, text: Seq<char>)
    ensures
        holds_glob(rules, text) ==> holds_glob(rules.push(rule), text),
        rule.0 == text ==> holds_glob(rules.push(rule), text),
{
    if holds_glob(rules, text) {
        let i = choose|i: int| 0 <= i < rules.len() && (#[trigger] rules[i]).0 == text;
        assert(rules.push(rule)[i].0 == text);
    }
    if rule.0 == text {
        assert(rules.push(rule)[rules.len() as int].0 == text);
    }
}

proof fn lemma_merged_holds(
    own: Seq<RuleText>,
    above: Seq<RuleText>,
    text: Seq<char>,
)
    requires
        holds_glob(own, text) || holds_glob(above, text),
    ensures
        holds_glob(merged(own, above), text),
    decreases above.len(),
{
    if above.len() > 0 {
        let front = above.drop_last();
        let before = merged(own, front);
        let last = above.last();
        if holds_glob(own, text) || holds_glob(front, text) {
            lemma_merged_holds(own, front, text);
            lemma_push_holds(before, last, text);
        } else {
            let i = choose|i: int| 0 <= i < above.len() && (#[trigger] above[i]).0 == text;
            if i < above.len() - 1 {
                assert(front[i].0 == text);
            }
            assert(last.0 == text);
            lemma_push_holds(before, last, text);
        }
    }
}

proof fn lemma_inherited_holds_own(
    own: Seq<RuleText>,
    chain: Seq<Seq<RuleText>>,
    text: Seq<char>,
)
    requires
        holds_glob(own, text),
    ensures
        holds_glob(inherited(own, chain), text),
    decreases chain.len(),
{
    if chain.len() > 0 {
        lemma_merged_holds(own, chain[0], text);
        lemma_inherited_holds_own(merged(own, chain[0]), chain.drop_first(), text);
    }
}

proof fn lemma_inherited_holds_chain(
    own: Seq<RuleText>,
    chain: Seq<Seq<RuleText>>,
    k: int,
    text: Seq<char>,
)
    requires
        0 <= k < chain.len(),
        holds_glob(chain[k], text),
    ensures
        holds_glob(inherited(own, chain), text),
    decreases chain.len(),
{
    if k == 0 {
        lemma_merged_holds(own, chain[0], text);
        lemma_inherited_holds_own(merged(own, chain[0]), chain.drop_first(), text);
    } else {
        assert(chain.drop_first()[k - 1] == chain[k]);
        lemma_inherited_holds_chain(merged(own, chain[0]), chain.drop_first(), k - 1, text);
    }
}

proof fn lemma_chain_has(context: &Context, dirs: Seq<Seq<char>>, i: int, accept: bool) -> (k: int)
    requires
        0 <= i < dirs.len(),
        context.rules_at(dirs[i]) is Some,
    ensures
        0 <= k < context.chain(dirs, accept).len(),
        context.chain(dirs, accept)[k] == if accept {
            context.rules_at(dirs[i])->0.accept_rules()
        } else {
            context.rules_at(dirs[i])->0.ignore_rules()
        },
    decreases dirs.len(),
{
    let head: Seq<Seq<RuleText>> = match context.rules_at(dirs[0]) {
        Some(rules) => seq![
            if accept {
                rules.accept_rules()
            } else {
                rules.ignore_rules()
            },
        ],
        None => Seq::empty(),
    };
    assert(context.chain(dirs, accept) == head + context.chain(dirs.drop_first(), accept));
    if i == 0 {
        0
    } else {
        assert(dirs.drop_first()[i - 1] == dirs[i]);
        let k = lemma_chain_has(context, dirs.drop_first(), i - 1, accept);
        k + head.len()
    }
}

/// Every folder above a path has a shorter name than the path.
pub proof fn lemma_ancestors_shorter(path: Seq<char>, i: int)
    requires
        0 <= i < ancestors(path).len(),
    ensures
        byte_len(ancestors(path)[i]) < byte_len(path),
    decreases byte_len(path),
{
    let dir = path_parent(path)->0;
    if i > 0 {
        assert(ancestors(path)[i] == ancestors(dir)[i - 1]);
        lemma_ancestors_shorter(dir, i - 1);
    }
}

/// The folders above a folder that is above a path are the folders above the
/// path that come after it.
pub proof fn lemma_ancestors_suffix(path: Seq<char>, i: int)
    requires
        0 <= i < ancestors(path).len(),
    ensures
        ancestors(ancestors(path)[i]) == ancestors(path).skip(i + 1),
    decreases byte_len(path),
{
    let dir = path_parent(path)->0;
    if i == 0 {
        assert(ancestors(path).skip(1) =~= ancestors(dir));
    } else {
        assert(ancestors(path)[i] == ancestors(dir)[i - 1]);
        lemma_ancestors_suffix(dir, i - 1);
        assert(ancestors(path).skip(i + 1) =~= ancestors(dir).skip(i));
    }
}

proof fn lemma_nearest_index(context: &Context, dirs: Seq<Seq<char>>) -> (i: int)
    requires
        context.nearest(dirs) is Some,
    ensures
        0 <= i < dirs.len(),
        context.rules_at(dirs[i]) == context.nearest(dirs),
        forall|j: int| 0 <= j < i ==> context.rules_at(#[trigger] dirs[j]) is None,
    decreases dirs.len(),
{
    if context.rules_at(dirs[0]) is Some {
        0
    } else {
        let rest = dirs.drop_first();
        let i = lemma_nearest_index(context, rest);
        assert forall|j: int| 0 <= j < i + 1 implies context.rules_at(#[trigger] dirs[j])
            is None by {
            if j > 0 {
                assert(dirs[j] == rest[j - 1]);
            }
        }
        i + 1
    }
}

/// A context that binds the same rules as one in which rules are inherited
/// is one in which rules are inherited.
pub proof fn lemma_kept_inherits(before: &Context, after: &Context)
    requires
        inheriting(before),
        after.keeps(before),
    ensures
        inheriting(after),
{
    assert forall|above: Seq<char>, below: Seq<char>|
        #![trigger after.rules_at(above), after.rules_at(below)]
        (after.rules_at(above) is Some && after.rules_at(below) is Some && lies_under(
            below,
            above,
        )) implies holds_all(
        after.rules_at(below)->0.ignore_rules(),
        after.rules_at(above)->0.ignore_rules(),
    ) && holds_all(
        after.rules_at(below)->0.accept_rules(),
        after.rules_at(above)->0.accept_rules(),
    ) by {
        assert(after.rules_at(above) == before.rules_at(above));
        assert(after.rules_at(below) == before.rules_at(below));
    }
}

/// Considering a folder keeps rules inherited, as long as folders are
/// considered from the root down.
///
/// Let `before` be a context in which every folder with rules holds the
/// globs of the folders above it, and in which no folder under `dir` has
/// rules yet. Whatever context files stand in `dir`, the same is true of the
/// context once `dir` has been considered.
pub proof fn theorem_considering_inherits(
    before: &Context,
    after: &Context,
    dir: Seq<char>,
    sources: Seq<(ContextFileAccepted, String)>,
)
    requires
        inheriting(before),
        nothing_below(before, dir),
        after.follows(before, dir, sources),
    ensures
        inheriting(after),
{
    assert forall|above: Seq<char>, below: Seq<char>|
        #![trigger after.rules_at(above), after.rules_at(below)]
        (after.rules_at(above) is Some && after.rules_at(below) is Some && lies_under(
            below,
            above,
        )) implies holds_all(
        after.rules_at(below)->0.ignore_rules(),
        after.rules_at(above)->0.ignore_rules(),
    ) && holds_all(
        after.rules_at(below)->0.accept_rules(),
        after.rules_at(above)->0.accept_rules(),
    ) by {
        let i = choose|i: int| 0 <= i < ancestors(below).len() && ancestors(below)[i] == above;
        lemma_ancestors_shorter(below, i);
        assert(above != below);
        if after.keeps(before) {
            assert(after.rules_at(above) == before.rules_at(above));
            assert(after.rules_at(below) == before.rules_at(below));
        } else if below == dir {
            assert(after.rules_at(above) == before.rules_at(above));
            let dirs = ancestors(dir);
            let upper = after.rules_at(above)->0;
            let lower = after.rules_at(below)->0;
            let k_ignore = lemma_chain_has(before, dirs, i, false);
            let k_accept = lemma_chain_has(before, dirs, i, true);
            assert forall|text: Seq<char>| holds_glob(upper.ignore_rules(), text) implies holds_glob(
                lower.ignore_rules(),
                text,
            ) by {
                lemma_inherited_holds_chain(
                    own_rules(sources, false),
                    before.chain(dirs, false),
                    k_ignore,
                    text,
                );
            }
            assert forall|text: Seq<char>| holds_glob(upper.accept_rules(), text) implies holds_glob(
                lower.accept_rules(),
                text,
            ) by {
                lemma_inherited_holds_chain(
                    own_rules(sources, true),
                    before.chain(dirs, true),
                    k_accept,
                    text,
                );
            }
        } else if above == dir {
            assert(after.rules_at(below) == before.rules_at(below));
            assert(!lies_under(below, dir));
        } else {
            assert(after.rules_at(above) == before.rules_at(above));
            assert(after.rules_at(below) == before.rules_at(below));
        }
    }
}

/// The rules of a folder are in force for every path under it.
///
/// In a context in which rules are inherited, let `dir` have rules and let
/// `path` lie under `dir`. Then `path` is judged by rules that hold every
/// glob of the rules of `dir`: by those of `dir` itself, or by those of a
/// folder between the two.
pub proof fn theorem_rules_are_in_force_below(context: &Context, dir: Seq<char>, path: Seq<char>)
    requires
        inheriting(context),
        context.rules_at(dir) is Some,
        lies_under(path, dir),
    ensures
        context.effective(path) is Some,
        holds_all(
            context.effective(path)->0.ignore_rules(),
            context.rules_at(dir)->0.ignore_rules(),
        ),
        holds_all(
            context.effective(path)->0.accept_rules(),
            context.rules_at(dir)->0.accept_rules(),
        ),
{
    let dirs = ancestors(path);
    crate::collector::context::theorem_rules_reach_inside(context, dir, path);
    let i = lemma_nearest_index(context, dirs);
    let j = choose|j: int| 0 <= j < dirs.len() && dirs[j] == dir;
    assert(i <= j) by {
        if j < i {
            assert(context.rules_at(dirs[j]) is None);
        }
    }
    if i < j {
        lemma_ancestors_suffix(path, i);
        assert(ancestors(dirs[i])[j - i - 1] == dirs[j]);
        assert(lies_under(dirs[i], dir));
        assert(context.rules_at(dir) is Some && context.rules_at(dirs[i]) is Some);
    }
}

/// What stands in the folders of a tree, as far as rules go: for every
/// folder the context files that stand in it, each with its content, in the
/// order of the context files of the entry.
pub type ContextTree = spec_fn(Seq<char>) -> Seq<(ContextFileAccepted, String)>;

/// Whether the context files that stand in `dir` hold a rule.
pub open spec fn has_rules(
    tree: ContextTree,
    dir: Seq<char>,
) -> bool {
    own_rules(tree(dir), true).len() > 0 || own_rules(tree(dir), false).len() > 0
}

/// The rules that are due to those of `dirs` that hold rules and have names
/// of fewer than `bound` bytes, in the order of `dirs`.
pub open spec fn due_chain(
    tree: ContextTree,
    dirs: Seq<Seq<char>>,
    accept: bool,
    bound: nat,
) -> Seq<Seq<RuleText>>
    decreases bound, dirs.len(),
{
    if dirs.len() == 0 {
        Seq::empty()
    } else {
        (if has_rules(tree, dirs[0]) && byte_len(dirs[0]) < bound {
            seq![due(tree, dirs[0], accept)]
        } else {
            Seq::empty()
        }) + due_chain(tree, dirs.drop_first(), accept, bound)
    }
}

/// The rules that are due to the folder `dir` in a tree: the accept rules
/// (`accept` is true) or the ignore rules that the context files in `dir`
/// hold, followed by what they inherit from the rules due to the folders
/// above, nearest first. `tree` says for every folder which context files
/// stand in it, and with what content.
pub open spec fn due(
    tree: ContextTree,
    dir: Seq<char>,
    accept: bool,
) -> Seq<RuleText>
    decreases byte_len(dir), ancestors(dir).len() + 1,
{
    inherited(own_rules(tree(dir), accept), due_chain(tree, ancestors(dir), accept, byte_len(dir)))
}

/// The nearest of `dirs` that holds rules, if there is one.
pub open spec fn nearest_with_rules(
    tree: ContextTree,
    dirs: Seq<Seq<char>>,
) -> Option<Seq<char>>
    decreases dirs.len(),
{
    if dirs.len() == 0 {
        None
    } else if has_rules(tree, dirs[0]) {
        Some(dirs[0])
    } else {
        nearest_with_rules(tree, dirs.drop_first())
    }
}

/// What is due to a path in a tree: whether it passes the rules due to the
/// nearest folder above it that holds rules. A path with no such folder
/// above it passes.
pub open spec fn due_verdict(
    tree: ContextTree,
    path: Seq<char>,
    kind: PathKind,
) -> bool {
    match nearest_with_rules(tree, ancestors(path)) {
        Some(dir) => rules_pass(due(tree, dir, true), due(tree, dir, false), path, kind),
        None => true,
    }
}

/// Whether the context binds to every folder what is due to it, as far as
/// the folders of `considered` go, and nothing to any other folder.
pub open spec fn faithful(
    context: &Context,
    tree: ContextTree,
    considered: Set<Seq<char>>,
) -> bool {
    forall|dir: Seq<char>|
        if considered.contains(dir) && has_rules(tree, dir) {
            #[trigger] context.rules_at(dir) is Some && context.rules_at(dir)->0.accept_rules()
                == due(tree, dir, true) && context.rules_at(dir)->0.ignore_rules() == due(
                tree,
                dir,
                false,
            )
        } else {
            context.rules_at(dir) is None
        }
}

/// Whether every folder of `dirs` was considered.
pub open spec fn all_considered(considered: Set<Seq<char>>, dirs: Seq<Seq<char>>) -> bool {
    forall|i: int| 0 <= i < dirs.len() ==> considered.contains(#[trigger] dirs[i])
}

proof fn lemma_chain_is_due(
    context: &Context,
    tree: ContextTree,
    considered: Set<Seq<char>>,
    dirs: Seq<Seq<char>>,
    accept: bool,
    bound: nat,
)
    requires
        faithful(context, tree, considered),
        all_considered(considered, dirs),
        forall|i: int| 0 <= i < dirs.len() ==> byte_len(#[trigger] dirs[i]) < bound,
    ensures
        context.chain(dirs, accept) == due_chain(tree, dirs, accept, bound),
    decreases dirs.len(),
{
    if dirs.len() > 0 {
        let rest = dirs.drop_first();
        assert(considered.contains(dirs[0]));
        assert(byte_len(dirs[0]) < bound);
        assert forall|i: int| 0 <= i < rest.len() implies considered.contains(
            #[trigger] rest[i],
        ) by {
            assert(rest[i] == dirs[i + 1]);
        }
        assert forall|i: int| 0 <= i < rest.len() implies byte_len(#[trigger] rest[i]) < bound by {
            assert(rest[i] == dirs[i + 1]);
        }
        lemma_chain_is_due(context, tree, considered, rest, accept, bound);
        if has_rules(tree, dirs[0]) {
            assert(context.rules_at(dirs[0]) is Some);
        } else {
            assert(context.rules_at(dirs[0]) is None);
        }
    }
}

proof fn lemma_nearest_is_due(
    context: &Context,
    tree: ContextTree,
    considered: Set<Seq<char>>,
    dirs: Seq<Seq<char>>,
)
    requires
        faithful(context, tree, considered),
        all_considered(considered, dirs),
    ensures
        match nearest_with_rules(tree, dirs) {
            Some(dir) => context.nearest(dirs) is Some && context.nearest(dirs)->0.accept_rules()
                == due(tree, dir, true) && context.nearest(dirs)->0.ignore_rules() == due(
                tree,
                dir,
                false,
            ),
            None => context.nearest(dirs) is None,
        },
    decreases dirs.len(),
{
    if dirs.len() > 0 {
        let rest = dirs.drop_first();
        assert(considered.contains(dirs[0]));
        assert forall|i: int| 0 <= i < rest.len() implies considered.contains(
            #[trigger] rest[i],
        ) by {
            assert(rest[i] == dirs[i + 1]);
        }
        lemma_nearest_is_due(context, tree, considered, rest);
        if has_rules(tree, dirs[0]) {
            assert(context.rules_at(dirs[0]) is Some);
        } else {
            assert(context.rules_at(dirs[0]) is None);
        }
    }
}

/// Considering a folder binds to it what is due to it, as long as folders
/// are considered from the root down.
///
/// Let `before` bind what is due in `tree` as far as the folders of
/// `considered` go, and let every folder above `dir` be among them, but not
/// `dir`. Once `dir` has been considered with the context files that stand
/// in it, the context binds what is due as far as `considered` and `dir` go.
pub proof fn theorem_considering_is_faithful(
    before: &Context,
    after: &Context,
    tree: ContextTree,
    considered: Set<Seq<char>>,
    dir: Seq<char>,
)
    requires
        faithful(before, tree, considered),
        all_considered(considered, ancestors(dir)),
        !considered.contains(dir),
        after.follows(before, dir, tree(dir)),
    ensures
        faithful(after, tree, considered.insert(dir)),
{
    let dirs = ancestors(dir);
    assert forall|i: int| 0 <= i < dirs.len() implies byte_len(#[trigger] dirs[i]) < byte_len(
        dir,
    ) by {
        lemma_ancestors_shorter(dir, i);
    }
    lemma_chain_is_due(before, tree, considered, dirs, true, byte_len(dir));
    lemma_chain_is_due(before, tree, considered, dirs, false, byte_len(dir));
    assert(before.rules_at(dir) is None);
    assert forall|any: Seq<char>|
        if considered.insert(dir).contains(any) && has_rules(tree, any) {
            #[trigger] after.rules_at(any) is Some && after.rules_at(any)->0.accept_rules() == due(
                tree,
                any,
                true,
            ) && after.rules_at(any)->0.ignore_rules() == due(tree, any, false)
        } else {
            after.rules_at(any) is None
        } by {
        if any != dir {
            assert(after.rules_at(any) == before.rules_at(any));
            assert(considered.insert(dir).contains(any) == considered.contains(any));
        } else if !has_rules(tree, dir) {
            assert(after.keeps(before));
            assert(after.rules_at(dir) == before.rules_at(dir));
        }
    }
}

/// What the context rules say of a path depends on the context files in
/// the folders above the path, and on nothing else: not on the order in
/// which folders were considered, and not on what else was considered.
///
/// Let the context bind what is due in `tree` as far as the folders of
/// `considered` go, and let every folder above `path` be among them. Then
/// the context lets `path` pass exactly where that is due to the path in the
/// tree.
pub proof fn theorem_verdict_is_due(
    context: &Context,
    tree: ContextTree,
    considered: Set<Seq<char>>,
    path: Seq<char>,
    kind: PathKind,
)
    requires
        faithful(context, tree, considered),
        all_considered(considered, ancestors(path)),
    ensures
        context.permits(path, kind) == due_verdict(tree, path, kind),
{
    lemma_nearest_is_due(context, tree, considered, ancestors(path));
}

} // verus!
