//! The format of a context file.
//!
//! A context file is text with one glob per line. Lines are separated by
//! `\n`. White space around a line does not count. A line that is blank, or
//! whose first character is `#`, holds no rule. A line whose first character
//! is `!` holds a negative rule: the glob is what follows the `!`.

use crate::collector::rules::{rule_views, Rule, RuleText};
use crate::collector::E;
use crate::entry::globbing::{glob_compiles, Glob};
use crate::text::{chars_of, string_of};
use vstd::prelude::*;
use vstd::slice::slice_subrange;

verus! {

/// Whether `c` is white space: a character with the Unicode property
/// `White_Space`.
pub open spec fn is_space(c: char) -> bool {
    let u = c as u32;
    ||| 0x09 <= u <= 0x0d
    ||| u == 0x20
    ||| u == 0x85
    ||| u == 0xa0
    ||| u == 0x1680
    ||| 0x2000 <= u <= 0x200a
    ||| u == 0x2028
    ||| u == 0x2029
    ||| u == 0x202f
    ||| u == 0x205f
    ||| u == 0x3000
}

/// Computes [`is_space`].
pub fn space(c: char) -> (r: bool)
    ensures
        r == is_space(c),
{
    let u: u32 = c as u32;
    (0x09 <= u && u <= 0x0d) || u == 0x20 || u == 0x85 || u == 0xa0 || u == 0x1680 || (0x2000 <= u
        && u <= 0x200a) || u == 0x2028 || u == 0x2029 || u == 0x202f || u == 0x205f || u == 0x3000
}

/// The length of the first line of `text`: the number of characters before
/// the first `\n`, or all of them where there is none.
pub open spec fn line_end(text: Seq<char>) -> int
    decreases text.len(),
{
    if text.len() == 0 || text[0] == '\n' {
        0
    } else {
        1 + line_end(text.drop_first())
    }
}

/// The lines of `text`, without their `\n`. A `\n` at the very end starts no
/// further line.
pub open spec fn lines_of(text: Seq<char>) -> Seq<Seq<char>>
    decreases text.len(),
{
    if text.len() == 0 {
        Seq::empty()
    } else {
        let end = line_end(text);
        if 0 <= end < text.len() {
            seq![text.take(end)] + lines_of(text.skip(end + 1))
        } else {
            seq![text]
        }
    }
}

/// `line` without the white space at its start.
pub open spec fn trim_start(line: Seq<char>) -> Seq<char>
    decreases line.len(),
{
    if line.len() > 0 && is_space(line[0]) {
        trim_start(line.drop_first())
    } else {
        line
    }
}

/// `line` without the white space at its end.
pub open spec fn trim_end(line: Seq<char>) -> Seq<char>
    decreases line.len(),
{
    if line.len() > 0 && is_space(line.last()) {
        trim_end(line.drop_last())
    } else {
        line
    }
}

/// `line` without the white space around it.
pub open spec fn trimmed(line: Seq<char>) -> Seq<char> {
    trim_end(trim_start(line))
}

/// The rule that a line holds, if it holds one: the text of its glob, and
/// whether it is negative.
pub open spec fn rule_of(line: Seq<char>) -> Option<RuleText> {
    let body = trimmed(line);
    if body.len() == 0 || body[0] == '#' {
        None
    } else if body[0] == '!' {
        Some((body.drop_first(), true))
    } else {
        Some((body, false))
    }
}

/// The rules that the lines hold, in the order of the lines.
pub open spec fn rules_of(lines: Seq<Seq<char>>) -> Seq<RuleText>
    decreases lines.len(),
{
    if lines.len() == 0 {
        Seq::empty()
    } else {
        (match rule_of(lines[0]) {
            Some(rule) => seq![rule],
            None => Seq::empty(),
        }) + rules_of(lines.drop_first())
    }
}

/// The rules that a context file with the content `text` holds.
pub open spec fn rules_in(text: Seq<char>) -> Seq<RuleText> {
    rules_of(lines_of(text))
}

/// The first line whose glob is not well formed, if there is one.
pub open spec fn offender(lines: Seq<Seq<char>>) -> Option<Seq<char>>
    decreases lines.len(),
{
    if lines.len() == 0 {
        None
    } else if rule_of(lines[0]) matches Some(rule) && !glob_compiles(rule.0) {
        Some(lines[0])
    } else {
        offender(lines.drop_first())
    }
}

/// There is a line whose glob is not well formed exactly where not every
/// rule has a glob that is.
pub proof fn lemma_offender(lines: Seq<Seq<char>>)
    ensures
        offender(lines) is None <==> all_compile(rules_of(lines)),
    decreases lines.len(),
{
    if lines.len() > 0 {
        let rest = lines.drop_first();
        lemma_offender(rest);
        let head: Seq<RuleText> = match rule_of(lines[0]) {
            Some(rule) => seq![rule],
            None => Seq::empty(),
        };
        assert(rules_of(lines) == head + rules_of(rest));
        if all_compile(rules_of(lines)) {
            assert forall|i: int| 0 <= i < rules_of(rest).len() implies glob_compiles(
                (#[trigger] rules_of(rest)[i]).0,
            ) by {
                assert(rules_of(lines)[i + head.len()] == rules_of(rest)[i]);
            }
            if head.len() > 0 {
                assert(rules_of(lines)[0] == head[0]);
            }
        }
        if offender(lines) is None {
            assert forall|i: int| 0 <= i < rules_of(lines).len() implies glob_compiles(
                (#[trigger] rules_of(lines)[i]).0,
            ) by {
                if i >= head.len() {
                    assert(rules_of(lines)[i] == rules_of(rest)[i - head.len()]);
                }
            }
        }
    }
}

/// Whether the glob of every rule is well formed.
pub open spec fn all_compile(rules: Seq<RuleText>) -> bool {
    forall|i: int| 0 <= i < rules.len() ==> glob_compiles((#[trigger] rules[i]).0)
}

proof fn lemma_line_end(text: Seq<char>, k: int)
    requires
        0 <= k <= text.len(),
        forall|j: int| 0 <= j < k ==> text[j] != '\n',
        k == text.len() || text[k] == '\n',
    ensures
        line_end(text) == k,
    decreases text.len(),
{
    if k > 0 {
        lemma_line_end(text.drop_first(), k - 1);
    }
}

proof fn lemma_trim_start(line: Seq<char>, k: int)
    requires
        0 <= k <= line.len(),
        forall|j: int| 0 <= j < k ==> is_space(line[j]),
        k == line.len() || !is_space(line[k]),
    ensures
        trim_start(line) == line.skip(k),
    decreases line.len(),
{
    if k > 0 {
        lemma_trim_start(line.drop_first(), k - 1);
        assert(line.drop_first().skip(k - 1) =~= line.skip(k));
    } else {
        assert(line.skip(0) =~= line);
    }
}

proof fn lemma_trim_end(line: Seq<char>, k: int)
    requires
        0 <= k <= line.len(),
        forall|j: int| k <= j < line.len() ==> is_space(line[j]),
        k == 0 || !is_space(line[k - 1]),
    ensures
        trim_end(line) == line.take(k),
    decreases line.len(),
{
    if k < line.len() {
        lemma_trim_end(line.drop_last(), k);
        assert(line.drop_last().take(k) =~= line.take(k));
    } else {
        assert(line.take(k) =~= line);
    }
}

/// Finds the rule in the line `chars[from..to]`: where its glob starts and
/// ends, and whether it is negative.
fn rule_span(chars: &Vec<char>, from: usize, to: usize) -> (r: Option<(usize, usize, bool)>)
    requires
        from <= to <= chars@.len(),
    ensures
        r is Some <==> rule_of(chars@.subrange(from as int, to as int)) is Some,
        r matches Some((start, end, negative)) ==> from <= start <= end <= to && rule_of(
            chars@.subrange(from as int, to as int),
        ) == Some((chars@.subrange(start as int, end as int), negative)),
{
    let ghost line = chars@.subrange(from as int, to as int);
    let mut start: usize = from;
    while start < to && space(chars[start])
        invariant
            from <= start <= to <= chars@.len(),
            forall|j: int| from <= j < start ==> is_space(chars@[j]),
        decreases to - start,
    {
        start += 1;
    }
    let mut end: usize = to;
    while end > start && space(chars[end - 1])
        invariant
            start <= end <= to <= chars@.len(),
            forall|j: int| end <= j < to ==> is_space(chars@[j]),
        decreases end - start,
    {
        end -= 1;
    }
    proof {
        lemma_trim_start(line, start - from);
        let rest = line.skip(start - from);
        assert(rest =~= chars@.subrange(start as int, to as int));
        lemma_trim_end(rest, end - start);
        assert(rest.take(end - start) =~= chars@.subrange(start as int, end as int));
        assert(trimmed(line) == chars@.subrange(start as int, end as int));
    }
    if start == end {
        return None;
    }
    let first = chars[start];
    assert(chars@.subrange(start as int, end as int)[0] == first);
    if first == '#' {
        None
    } else if first == '!' {
        assert(chars@.subrange(start as int, end as int).drop_first() =~= chars@.subrange(
            start + 1,
            end as int,
        ));
        Some((start + 1, end, true))
    } else {
        Some((start, end, false))
    }
}

/// Reads the rules of a context file with the content `content`.
///
/// It succeeds exactly where the glob of every rule in the file is well
/// formed, and then returns the rules of [`rules_in`], in their order. Else it
/// fails with the first line whose glob is not well formed.
pub fn parse(content: &str) -> (r: Result<Vec<Rule>, E>)
    ensures
        r is Ok <==> all_compile(rules_in(content@)),
        r matches Ok(rules) ==> rule_views(rules@) == rules_in(content@),
        r matches Err(err) ==> (err matches E::PatternError(line, _) && offender(
            lines_of(content@),
        ) == Some(line@)),
{
    let chars = chars_of(content);
    let n: usize = chars.len();
    let mut rules: Vec<Rule> = Vec::new();
    let mut pos: usize = 0;
    assert(chars@.skip(0) =~= chars@);
    assert(rule_views(rules@) =~= Seq::<RuleText>::empty());
    while pos < n
        invariant
            n == chars@.len(),
            chars@ == content@,
            pos <= n,
            rule_views(rules@) + rules_in(chars@.skip(pos as int)) == rules_in(chars@),
            all_compile(rule_views(rules@)),
            offender(lines_of(chars@)) == offender(lines_of(chars@.skip(pos as int))),
        decreases n - pos,
    {
        let ghost rest = chars@.skip(pos as int);
        let mut end: usize = pos;
        while end < n && chars[end] != '\n'
            invariant
                n == chars@.len(),
                pos <= end <= n,
                forall|j: int| pos <= j < end ==> chars@[j] != '\n',
            decreases n - end,
        {
            end += 1;
        }
        let next: usize = if end < n {
            end + 1
        } else {
            n
        };
        proof {
            lemma_line_end(rest, end - pos);
            assert(rest.take(end - pos) =~= chars@.subrange(pos as int, end as int));
            if end < n {
                assert(rest.skip(end - pos + 1) =~= chars@.skip(next as int));
            } else {
                assert(rest =~= chars@.subrange(pos as int, end as int));
                assert(chars@.skip(next as int) =~= Seq::<char>::empty());
            }
            let line = chars@.subrange(pos as int, end as int);
            assert(lines_of(rest) =~= seq![line] + lines_of(chars@.skip(next as int)));
            assert(lines_of(rest).drop_first() =~= lines_of(chars@.skip(next as int)));
            assert(lines_of(rest)[0] == line);
        }
        match rule_span(&chars, pos, end) {
            Some((start, stop, negative)) => {
                let text = string_of(slice_subrange(chars.as_slice(), start, stop));
                match Glob::new(text.as_str()) {
                    Ok(glob) => {
                        let ghost before = rules@;
                        rules.push(Rule { glob, negative });
                        proof {
                            let rule = (text@, negative);
                            assert(offender(lines_of(rest)) == offender(
                                lines_of(chars@.skip(next as int)),
                            ));
                            assert(rule_views(rules@) =~= rule_views(before).push(rule));
                            assert(rules_in(rest) =~= seq![rule] + rules_in(
                                chars@.skip(next as int),
                            ));
                            assert(rule_views(rules@) + rules_in(chars@.skip(next as int))
                                =~= rule_views(before) + rules_in(rest));
                        }
                    },
                    Err(err) => {
                        proof {
                            let rule = (text@, negative);
                            assert(rules_in(rest) =~= seq![rule] + rules_in(
                                chars@.skip(next as int),
                            ));
                            let all = rules_in(chars@);
                            let k = rule_views(rules@).len() as int;
                            assert(all[k] == rule);
                            assert(!all_compile(all));
                        }
                        let line = string_of(slice_subrange(chars.as_slice(), pos, end));
                        assert(offender(lines_of(rest)) == Some(line@));
                        return Err(E::PatternError(line, err));
                    },
                }
            },
            None => {
                assert(rules_in(rest) =~= rules_in(chars@.skip(next as int)));
                assert(offender(lines_of(rest)) == offender(lines_of(chars@.skip(next as int))));
            },
        }
        pos = next;
    }
    proof {
        assert(chars@.skip(pos as int) =~= Seq::<char>::empty());
        assert(rules_in(chars@.skip(pos as int)) =~= Seq::<RuleText>::empty());
        assert(rule_views(rules@) =~= rules_in(chars@));
    }
    Ok(rules)
}

} // verus!
