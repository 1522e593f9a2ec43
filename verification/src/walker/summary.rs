//! What the summary digest depends on, and what it does not.
//!
//! Results arrive in the order in which workers happen to finish, and that
//! order differs between runs and with the number of threads. The theorems of
//! this file say that the summary digest is the same all the same, and that it
//! changes when a file does.

use crate::hasher::Hasher;
use crate::text::{lemma_bytes_le_antisym, lemma_encoding_injective, path_le};
use crate::walker::hashing::{
    contribution, digest_input, hashed_count, is_hashed, sorted_by_path, summary_of, HashItem,
};
use vstd::prelude::*;
use vstd::seq_lib::{to_multiset_contains, to_multiset_len, to_multiset_remove};
use vstd::utf8::encode_utf8;

verus! {

/// Whether no path occurs twice among the items.
pub open spec fn distinct_paths(items: Seq<HashItem>) -> bool {
    forall|i: int, j: int| 0 <= i < j < items.len() ==> items[i].0@ != items[j].0@
}

/// Whether `one` and `other` are a collision of the hasher `H`: different
/// inputs with the same digest.
pub open spec fn collide<H: Hasher>(one: Seq<u8>, other: Seq<u8>) -> bool {
    one != other && H::digest_of(one) == H::digest_of(other)
}

proof fn lemma_distinct_paths_no_duplicates(items: Seq<HashItem>)
    requires
        distinct_paths(items),
    ensures
        items.no_duplicates(),
{
    assert forall|i: int, j: int| 0 <= i < items.len() && 0 <= j < items.len() && i != j implies items[i]
        != items[j] by {
        if i < j {
            assert(items[i].0@ != items[j].0@);
        } else {
            assert(items[j].0@ != items[i].0@);
        }
    }
}

/// That no path occurs twice is a matter of which items there are, not of
/// their order.
pub proof fn lemma_distinct_paths_rearranged(items: Seq<HashItem>, rearranged: Seq<HashItem>)
    requires
        distinct_paths(items),
        items.to_multiset() == rearranged.to_multiset(),
    ensures
        distinct_paths(rearranged),
{
    lemma_distinct_paths_no_duplicates(items);
    items.lemma_multiset_has_no_duplicates();
    rearranged.lemma_multiset_has_no_duplicates_conv();
    assert forall|i: int, j: int| 0 <= i < j < rearranged.len() implies rearranged[i].0@
        != rearranged[j].0@ by {
        let x = rearranged[i];
        let y = rearranged[j];
        assert(x != y);
        assert(rearranged.contains(x));
        assert(rearranged.contains(y));
        to_multiset_contains(rearranged, x);
        to_multiset_contains(rearranged, y);
        to_multiset_contains(items, x);
        to_multiset_contains(items, y);
        let p = choose|p: int| 0 <= p < items.len() && items[p] == x;
        let q = choose|q: int| 0 <= q < items.len() && items[q] == y;
        if p < q {
            assert(items[p].0@ != items[q].0@);
        } else {
            assert(p != q);
            assert(items[q].0@ != items[p].0@);
        }
    }
}

/// There is only one way to arrange items with different paths in the order
/// of their paths.
pub proof fn lemma_arrangement_unique(first: Seq<HashItem>, second: Seq<HashItem>)
    requires
        sorted_by_path(first),
        sorted_by_path(second),
        first.to_multiset() == second.to_multiset(),
        distinct_paths(first),
    ensures
        first == second,
    decreases first.len(),
{
    to_multiset_len(first);
    to_multiset_len(second);
    if first.len() == 0 {
        assert(first =~= second);
    } else {
        let x = first[0];
        let y = second[0];
        assert(first.contains(x));
        assert(second.contains(y));
        to_multiset_contains(first, x);
        to_multiset_contains(second, x);
        to_multiset_contains(second, y);
        to_multiset_contains(first, y);
        let k = choose|k: int| 0 <= k < second.len() && second[k] == x;
        let m = choose|m: int| 0 <= m < first.len() && first[m] == y;
        assert(path_le(y.0@, x.0@)) by {
            if k > 0 {
                assert(path_le(second[0].0@, second[k].0@));
            } else {
                crate::text::lemma_bytes_le_refl(encode_utf8(x.0@));
            }
        }
        assert(path_le(x.0@, y.0@)) by {
            if m > 0 {
                assert(path_le(first[0].0@, first[m].0@));
            } else {
                crate::text::lemma_bytes_le_refl(encode_utf8(x.0@));
            }
        }
        lemma_bytes_le_antisym(encode_utf8(x.0@), encode_utf8(y.0@));
        lemma_encoding_injective(x.0@, y.0@);
        if m > 0 {
            assert(first[0].0@ != first[m].0@);
        }
        assert(x == y);
        let rest_first = first.drop_first();
        let rest_second = second.drop_first();
        assert(first.remove(0) =~= rest_first);
        assert(second.remove(0) =~= rest_second);
        to_multiset_remove(first, 0);
        to_multiset_remove(second, 0);
        assert(sorted_by_path(rest_first)) by {
            assert forall|i: int, j: int| 0 <= i < j < rest_first.len() implies path_le(
                rest_first[i].0@,
                rest_first[j].0@,
            ) by {
                assert(path_le(first[i + 1].0@, first[j + 1].0@));
            }
        }
        assert(sorted_by_path(rest_second)) by {
            assert forall|i: int, j: int| 0 <= i < j < rest_second.len() implies path_le(
                rest_second[i].0@,
                rest_second[j].0@,
            ) by {
                assert(path_le(second[i + 1].0@, second[j + 1].0@));
            }
        }
        assert(distinct_paths(rest_first)) by {
            assert forall|i: int, j: int| 0 <= i < j < rest_first.len() implies rest_first[i].0@
                != rest_first[j].0@ by {
                assert(first[i + 1].0@ != first[j + 1].0@);
            }
        }
        lemma_arrangement_unique(rest_first, rest_second);
        assert(first =~= seq![x] + rest_first);
        assert(second =~= seq![y] + rest_second);
    }
}

/// The arranged results do not depend on the order in which the results
/// arrived, as long as no path occurs twice.
///
/// Let two runs end with the same results, each path occurring once, in
/// whatever order: `arrived` in one run, `rearranged` in the other. Whatever
/// the coordinator makes of the two when it arranges them by path (`first`
/// and `second`), the arranged results are the same.
pub proof fn theorem_arrangement_ignores_arrival(
    arrived: Seq<HashItem>,
    rearranged: Seq<HashItem>,
    first: Seq<HashItem>,
    second: Seq<HashItem>,
)
    requires
        distinct_paths(arrived),
        arrived.to_multiset() == rearranged.to_multiset(),
        first.to_multiset() == arrived.to_multiset(),
        sorted_by_path(first),
        second.to_multiset() == rearranged.to_multiset(),
        sorted_by_path(second),
    ensures
        first == second,
{
    lemma_distinct_paths_rearranged(arrived, first);
    lemma_arrangement_unique(first, second);
}

/// Whether two items can stand in either order without a difference to the
/// summary: they add the same, or one of them adds nothing.
pub open spec fn compatible(one: HashItem, other: HashItem) -> bool {
    contribution(one) == contribution(other) || contribution(one).len() == 0 || contribution(
        other,
    ).len() == 0
}

/// Whether no path carries two different digests: items with the same path
/// add the same to the summary, as far as they add anything.
pub open spec fn agreeing(items: Seq<HashItem>) -> bool {
    forall|i: int, j: int|
        0 <= i < items.len() && 0 <= j < items.len() && items[i].0@ == items[j].0@
            ==> compatible(items[i], items[j])
}

proof fn lemma_agreeing_rearranged(items: Seq<HashItem>, rearranged: Seq<HashItem>)
    requires
        agreeing(items),
        items.to_multiset() == rearranged.to_multiset(),
    ensures
        agreeing(rearranged),
{
    assert forall|i: int, j: int|
        0 <= i < rearranged.len() && 0 <= j < rearranged.len() && rearranged[i].0@
            == rearranged[j].0@ implies compatible(rearranged[i], rearranged[j]) by {
        let x = rearranged[i];
        let y = rearranged[j];
        assert(rearranged.contains(x));
        assert(rearranged.contains(y));
        to_multiset_contains(rearranged, x);
        to_multiset_contains(rearranged, y);
        to_multiset_contains(items, x);
        to_multiset_contains(items, y);
        let p = choose|p: int| 0 <= p < items.len() && items[p] == x;
        let q = choose|q: int| 0 <= q < items.len() && items[q] == y;
        assert(compatible(items[p], items[q]));
    }
}

proof fn lemma_input_concat(front: Seq<HashItem>, back: Seq<HashItem>)
    ensures
        digest_input(front + back) == digest_input(front) + digest_input(back),
        hashed_count(front + back) == hashed_count(front) + hashed_count(back),
    decreases back.len(),
{
    if back.len() == 0 {
        assert(front + back =~= front);
        assert(digest_input(front) + digest_input(back) =~= digest_input(front));
    } else {
        lemma_input_concat(front, back.drop_last());
        assert((front + back).drop_last() =~= front + back.drop_last());
        assert((front + back).last() == back.last());
        assert(digest_input(front + back) =~= digest_input(front) + digest_input(back));
    }
}

proof fn lemma_input_single(item: HashItem)
    ensures
        digest_input(seq![item]) == contribution(item),
        hashed_count(seq![item]) == if is_hashed(item) {
            1nat
        } else {
            0nat
        },
{
    let one = seq![item];
    let none = Seq::<HashItem>::empty();
    assert(one.drop_last() =~= none);
    assert(one.last() == item);
    assert(digest_input(none) =~= Seq::<u8>::empty());
    assert(hashed_count(none) == 0);
    assert(digest_input(one) == digest_input(one.drop_last()) + contribution(one.last()));
    assert(digest_input(one) =~= contribution(item));
}

proof fn lemma_move_back(item: HashItem, rest: Seq<HashItem>)
    requires
        forall|i: int| 0 <= i < rest.len() ==> compatible(item, #[trigger] rest[i]),
    ensures
        digest_input(seq![item] + rest) == digest_input(rest) + contribution(item),
    decreases rest.len(),
{
    if rest.len() == 0 {
        lemma_input_single(item);
        assert(seq![item] + rest =~= seq![item]);
        assert(digest_input(rest) + contribution(item) =~= contribution(item));
    } else {
        let front = rest.drop_last();
        assert forall|i: int| 0 <= i < front.len() implies compatible(item, #[trigger] front[i]) by {
            assert(front[i] == rest[i]);
        }
        lemma_move_back(item, front);
        assert((seq![item] + rest).drop_last() =~= seq![item] + front);
        assert((seq![item] + rest).last() == rest.last());
        assert(compatible(item, rest[rest.len() - 1]));
        let mine = contribution(item);
        let last = contribution(rest.last());
        assert(mine + last =~= last + mine);
        assert(digest_input(seq![item] + rest) =~= digest_input(front) + (mine + last));
        assert(digest_input(rest) + mine =~= digest_input(front) + (last + mine));
    }
}

/// What the summary is made from depends on which results there are, not on
/// how those with the same path are arranged among themselves.
pub proof fn lemma_summary_rearranged(first: Seq<HashItem>, second: Seq<HashItem>)
    requires
        sorted_by_path(first),
        sorted_by_path(second),
        first.to_multiset() == second.to_multiset(),
        agreeing(first),
    ensures
        digest_input(first) == digest_input(second),
        hashed_count(first) == hashed_count(second),
    decreases first.len(),
{
    to_multiset_len(first);
    to_multiset_len(second);
    if first.len() == 0 {
        assert(first =~= second);
    } else {
        let n = first.len() as int;
        let x = first[n - 1];
        assert(first.contains(x));
        to_multiset_contains(first, x);
        to_multiset_contains(second, x);
        let k = choose|k: int| 0 <= k < second.len() && second[k] == x;
        let head = second.take(k);
        let tail = second.skip(k + 1);
        assert forall|i: int| 0 <= i < tail.len() implies compatible(x, #[trigger] tail[i]) by {
            let y = second[k + 1 + i];
            assert(tail[i] == y);
            assert(path_le(x.0@, y.0@)) by {
                assert(path_le(second[k].0@, second[k + 1 + i].0@));
            }
            assert(second.contains(y));
            to_multiset_contains(second, y);
            to_multiset_contains(first, y);
            let m = choose|m: int| 0 <= m < first.len() && first[m] == y;
            assert(path_le(y.0@, x.0@)) by {
                if m < n - 1 {
                    assert(path_le(first[m].0@, first[n - 1].0@));
                } else {
                    crate::text::lemma_bytes_le_refl(encode_utf8(x.0@));
                }
            }
            lemma_bytes_le_antisym(encode_utf8(x.0@), encode_utf8(y.0@));
            lemma_encoding_injective(x.0@, y.0@);
            assert(compatible(first[n - 1], first[m]));
        }
        let front = first.drop_last();
        let rest = second.remove(k);
        assert(first.remove(n - 1) =~= front);
        to_multiset_remove(first, n - 1);
        to_multiset_remove(second, k);
        assert(rest =~= head + tail);
        assert(second =~= head + (seq![x] + tail));
        assert(sorted_by_path(front)) by {
            assert forall|i: int, j: int| 0 <= i < j < front.len() implies path_le(
                front[i].0@,
                front[j].0@,
            ) by {
                assert(path_le(first[i].0@, first[j].0@));
            }
        }
        assert(sorted_by_path(rest)) by {
            assert forall|i: int, j: int| 0 <= i < j < rest.len() implies path_le(
                rest[i].0@,
                rest[j].0@,
            ) by {
                let a = if i < k {
                    i
                } else {
                    i + 1
                };
                let b = if j < k {
                    j
                } else {
                    j + 1
                };
                assert(rest[i] == second[a]);
                assert(rest[j] == second[b]);
                assert(path_le(second[a].0@, second[b].0@));
            }
        }
        assert(agreeing(front)) by {
            assert forall|i: int, j: int|
                0 <= i < front.len() && 0 <= j < front.len() && front[i].0@
                    == front[j].0@ implies compatible(front[i], front[j]) by {
                assert(compatible(first[i], first[j]));
            }
        }
        lemma_summary_rearranged(front, rest);
        lemma_move_back(x, tail);
        lemma_input_concat(head, seq![x] + tail);
        lemma_input_concat(head, tail);
        lemma_input_concat(seq![x], tail);
        lemma_input_single(x);
        assert(digest_input(second) =~= digest_input(rest) + contribution(x));
        assert(first.last() == x);
    }
}

/// The summary digest does not depend on the order in which the results
/// arrived.
///
/// Let two runs end with the same results in whatever order: `arrived` in
/// one run, `rearranged` in the other. A path may occur more than once, as
/// long as it does not carry two different digests. Whatever the coordinator
/// makes of the two when it arranges them by path (`first` and `second`), the
/// summary digest is the same. The number of threads and the order in which
/// the filesystem lists a folder change the order of arrival and nothing
/// else, so that the summary digest depends on neither.
pub proof fn theorem_summary_ignores_arrival<H: Hasher>(
    arrived: Seq<HashItem>,
    rearranged: Seq<HashItem>,
    first: Seq<HashItem>,
    second: Seq<HashItem>,
)
    requires
        agreeing(arrived),
        arrived.to_multiset() == rearranged.to_multiset(),
        first.to_multiset() == arrived.to_multiset(),
        sorted_by_path(first),
        second.to_multiset() == rearranged.to_multiset(),
        sorted_by_path(second),
    ensures
        summary_of::<H>(first) == summary_of::<H>(second),
{
    lemma_agreeing_rearranged(arrived, first);
    lemma_summary_rearranged(first, second);
}

proof fn lemma_input_lengths(before: Seq<HashItem>, after: Seq<HashItem>)
    requires
        before.len() == after.len(),
        forall|i: int|
            0 <= i < before.len() ==> contribution(#[trigger] before[i]).len() == contribution(
                after[i],
            ).len(),
    ensures
        digest_input(before).len() == digest_input(after).len(),
    decreases before.len(),
{
    if before.len() > 0 {
        let n = before.len() as int;
        assert(contribution(before[n - 1]).len() == contribution(after[n - 1]).len());
        assert forall|i: int| 0 <= i < n - 1 implies contribution(
            #[trigger] before.drop_last()[i],
        ).len() == contribution(after.drop_last()[i]).len() by {
            assert(contribution(before[i]).len() == contribution(after[i]).len());
        }
        lemma_input_lengths(before.drop_last(), after.drop_last());
    }
}

proof fn lemma_hashed_count_positive(items: Seq<HashItem>, k: int)
    requires
        0 <= k < items.len(),
        is_hashed(items[k]),
    ensures
        hashed_count(items) > 0,
    decreases items.len(),
{
    if k < items.len() - 1 {
        lemma_hashed_count_positive(items.drop_last(), k);
    }
}

/// A change in a file changes the summary digest, as long as the hasher does
/// what a hash function is meant to do.
///
/// `before` and `after` are the arranged results of two runs over the same
/// paths. The file of item `changed` was hashed in both runs: it held
/// `old_file` in the first and `new_file` in the second, and the two differ.
/// Whatever became of the other files, the summary digests differ, unless
/// the hasher has a collision on the two states of that file, or on what the
/// two summaries are made from.
///
/// The digests are taken to be as long in the second run as in the first,
/// item by item. Where a hasher gives digests of varying length, two
/// different lists of digests can run together into the same bytes.
pub proof fn theorem_change_is_detected<H: Hasher>(
    before: Seq<HashItem>,
    after: Seq<HashItem>,
    changed: int,
    old_file: Seq<u8>,
    new_file: Seq<u8>,
)
    requires
        before.len() == after.len(),
        forall|i: int|
            0 <= i < before.len() ==> contribution(#[trigger] before[i]).len() == contribution(
                after[i],
            ).len(),
        0 <= changed < before.len(),
        is_hashed(before[changed]),
        is_hashed(after[changed]),
        contribution(before[changed]) == H::digest_of(old_file),
        contribution(after[changed]) == H::digest_of(new_file),
        old_file != new_file,
        !collide::<H>(old_file, new_file),
        !collide::<H>(digest_input(before), digest_input(after)),
    ensures
        summary_of::<H>(before) != summary_of::<H>(after),
{
    let k = changed;
    let mine = contribution(before[k]);
    let theirs = contribution(after[k]);
    lemma_hashed_count_positive(before, k);
    lemma_hashed_count_positive(after, k);
    assert(mine != theirs);
    assert(mine.len() == theirs.len());
    let head_before = before.take(k);
    let head_after = after.take(k);
    assert forall|i: int| 0 <= i < head_before.len() implies contribution(
        #[trigger] head_before[i],
    ).len() == contribution(head_after[i]).len() by {
        assert(contribution(before[i]).len() == contribution(after[i]).len());
    }
    lemma_input_lengths(head_before, head_after);
    let tail_before = seq![before[k]] + before.skip(k + 1);
    let tail_after = seq![after[k]] + after.skip(k + 1);
    assert(before =~= head_before + tail_before);
    assert(after =~= head_after + tail_after);
    lemma_input_concat(head_before, tail_before);
    lemma_input_concat(head_after, tail_after);
    lemma_input_concat(seq![before[k]], before.skip(k + 1));
    lemma_input_concat(seq![after[k]], after.skip(k + 1));
    lemma_input_single(before[k]);
    lemma_input_single(after[k]);
    let at = digest_input(head_before).len() as int;
    let whole_before = digest_input(before);
    let whole_after = digest_input(after);
    assert(whole_before.subrange(at, at + mine.len()) =~= mine);
    assert(whole_after.subrange(at, at + theirs.len()) =~= theirs);
    assert(whole_before != whole_after);
}

} // verus!
