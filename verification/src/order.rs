//! Putting things in order, and counting them.

use vstd::prelude::*;

#[allow(unused_imports)]
use vstd::multiset::Multiset;
#[allow(unused_imports)]
use vstd::relations::{sorted_by, total_ordering};

verus! {

/// The first entries of a list, at most `limit` of them.
pub open spec fn head<T>(list: Seq<T>, limit: int) -> Seq<T> {
    if list.len() <= limit {
        list
    } else {
        list.take(limit)
    }
}

/// Pairs in order: by the first number, then by the second.
pub open spec fn pair_le(a: (u64, u64), b: (u64, u64)) -> bool {
    a.0 < b.0 || (a.0 == b.0 && a.1 <= b.1)
}

/// A list in order.
pub open spec fn in_order(list: Seq<(u64, u64)>) -> bool {
    forall|i: int, j: int| 0 <= i <= j < list.len() ==> pair_le(#[trigger] list[i], #[trigger] list[j])
}

/// Whether `out` is `list` put in order: the same pairs, each as often.
pub open spec fn is_sorted_form(out: Seq<(u64, u64)>, list: Seq<(u64, u64)>) -> bool {
    in_order(out) && out.to_multiset() == list.to_multiset()
}

/// A list can be put in order in one way only.
pub proof fn law_order_is_unique(a: Seq<(u64, u64)>, b: Seq<(u64, u64)>, list: Seq<(u64, u64)>)
    requires
        is_sorted_form(a, list),
        is_sorted_form(b, list),
    ensures
        a == b,
{
    let leq = |x: (u64, u64), y: (u64, u64)| pair_le(x, y);
    assert(total_ordering(leq));
    assert(sorted_by(a, leq));
    assert(sorted_by(b, leq));
    vstd::seq_lib::lemma_sorted_unique(a, b, leq);
}

/// The list put in order.
pub open spec fn sorted_form(list: Seq<(u64, u64)>) -> Seq<(u64, u64)> {
    list.sort_by(|x: (u64, u64), y: (u64, u64)| pair_le(x, y))
}

/// [`sorted_form`] puts a list in order.
pub proof fn lemma_sorted_form(list: Seq<(u64, u64)>)
    ensures
        is_sorted_form(sorted_form(list), list),
        sorted_form(list).len() == list.len(),
{
    let leq = |x: (u64, u64), y: (u64, u64)| pair_le(x, y);
    assert(total_ordering(leq));
    list.lemma_sort_by_ensures(leq);
    let out = sorted_form(list);
    assert forall|i: int, j: int| 0 <= i <= j < out.len() implies pair_le(
        #[trigger] out[i],
        #[trigger] out[j],
    ) by {
        if i < j {
            assert(leq(out[i], out[j]));
        }
    }
    broadcast use vstd::seq_lib::group_to_multiset_ensures;

    assert(out.to_multiset().len() == list.to_multiset().len());
}

/// Whether `a` comes no later than `b`.
fn no_later(a: (u64, u64), b: (u64, u64)) -> (yes: bool)
    ensures
        yes == pair_le(a, b),
{
    a.0 < b.0 || (a.0 == b.0 && a.1 <= b.1)
}

/// Two lists in order as one.
fn weave(a: &Vec<(u64, u64)>, b: &Vec<(u64, u64)>) -> (out: Vec<(u64, u64)>)
    requires
        in_order(a@),
        in_order(b@),
    ensures
        in_order(out@),
        out@.to_multiset() == a@.to_multiset().add(b@.to_multiset()),
{
    let mut out: Vec<(u64, u64)> = Vec::new();
    let mut i: usize = 0;
    let mut j: usize = 0;
    proof {
        broadcast use vstd::seq_lib::group_to_multiset_ensures;

        assert(a@.take(0).to_multiset().add(b@.take(0).to_multiset()) =~= Multiset::empty());
        assert(out@.to_multiset() =~= Multiset::empty());
    }
    while i < a.len() || j < b.len()
        invariant
            i <= a@.len(),
            j <= b@.len(),
            in_order(a@),
            in_order(b@),
            in_order(out@),
            out@.to_multiset() == a@.take(i as int).to_multiset().add(
                b@.take(j as int).to_multiset(),
            ),
            forall|k: int, n: int|
                0 <= k < out@.len() && i <= n < a@.len() ==> pair_le(
                    #[trigger] out@[k],
                    #[trigger] a@[n],
                ),
            forall|k: int, n: int|
                0 <= k < out@.len() && j <= n < b@.len() ==> pair_le(
                    #[trigger] out@[k],
                    #[trigger] b@[n],
                ),
        decreases a@.len() - i + b@.len() - j,
    {
        let ghost before = out@;
        if j == b.len() || (i < a.len() && no_later(a[i], b[j])) {
            out.push(a[i]);
            proof {
                broadcast use vstd::seq_lib::group_to_multiset_ensures;

                assert(a@.take(i + 1) =~= a@.take(i as int).push(a@[i as int]));
                assert(out@.to_multiset() =~= a@.take(i + 1).to_multiset().add(
                    b@.take(j as int).to_multiset(),
                ));
            }
            i = i + 1;
        } else {
            out.push(b[j]);
            proof {
                broadcast use vstd::seq_lib::group_to_multiset_ensures;

                assert(b@.take(j + 1) =~= b@.take(j as int).push(b@[j as int]));
                assert(out@.to_multiset() =~= a@.take(i as int).to_multiset().add(
                    b@.take(j + 1).to_multiset(),
                ));
            }
            j = j + 1;
        }
    }
    assert(a@.take(a@.len() as int) =~= a@);
    assert(b@.take(b@.len() as int) =~= b@);
    out
}

/// The pairs `list[from..to]` in order.
fn sort_part(list: &Vec<(u64, u64)>, from: usize, to: usize) -> (out: Vec<(u64, u64)>)
    requires
        from <= to <= list@.len(),
    ensures
        is_sorted_form(out@, list@.subrange(from as int, to as int)),
    decreases to - from,
{
    if to - from <= 1 {
        let mut out: Vec<(u64, u64)> = Vec::new();
        if to > from {
            out.push(list[from]);
        }
        assert(out@ =~= list@.subrange(from as int, to as int));
        out
    } else {
        let middle: usize = from + (to - from) / 2;
        let a: Vec<(u64, u64)> = sort_part(list, from, middle);
        let b: Vec<(u64, u64)> = sort_part(list, middle, to);
        proof {
            vstd::seq_lib::lemma_multiset_commutative(
                list@.subrange(from as int, middle as int),
                list@.subrange(middle as int, to as int),
            );
            assert(list@.subrange(from as int, middle as int) + list@.subrange(
                middle as int,
                to as int,
            ) =~= list@.subrange(from as int, to as int));
        }
        weave(&a, &b)
    }
}

/// The pairs in order.
pub fn sort_pairs(list: &Vec<(u64, u64)>) -> (out: Vec<(u64, u64)>)
    ensures
        out@ == sorted_form(list@),
        is_sorted_form(out@, list@),
        out@.len() == list@.len(),
{
    let out: Vec<(u64, u64)> = sort_part(list, 0, list.len());
    proof {
        assert(list@.subrange(0, list@.len() as int) =~= list@);
        lemma_sorted_form(list@);
        law_order_is_unique(out@, sorted_form(list@), list@);
    }
    out
}

// ---------------------------------------------------------------------------
// Counting
// ---------------------------------------------------------------------------

/// Whether one pair comes before another and is not the same.
pub open spec fn pair_before(a: (u64, u64), b: (u64, u64)) -> bool {
    a.0 < b.0 || (a.0 == b.0 && a.1 < b.1)
}

/// Whether these are the pairs of a list, each once and with how often it occurs,
/// in order.
pub open spec fn is_tally(out: Seq<((u64, u64), u64)>, list: Seq<(u64, u64)>) -> bool {
    &&& forall|i: int|
        0 <= i < out.len() ==> (#[trigger] out[i]).1 > 0 && out[i].1 == list.to_multiset().count(
            out[i].0,
        )
    &&& forall|pair: (u64, u64)| #[trigger]
        list.to_multiset().count(pair) > 0 ==> exists|i: int|
            0 <= i < out.len() && (#[trigger] out[i]).0 == pair
    &&& forall|i: int, j: int|
        0 <= i < j < out.len() ==> pair_before((#[trigger] out[i]).0, (#[trigger] out[j]).0)
}

/// The pairs of a list, each once and with how often it occurs, in order.
pub open spec fn tally_of(list: Seq<(u64, u64)>) -> Seq<((u64, u64), u64)> {
    choose|out: Seq<((u64, u64), u64)>| is_tally(out, list)
}

/// A list has one tally and no other.
pub proof fn law_a_tally_is_unique(
    a: Seq<((u64, u64), u64)>,
    b: Seq<((u64, u64), u64)>,
    list: Seq<(u64, u64)>,
)
    requires
        is_tally(a, list),
        is_tally(b, list),
    ensures
        a == b,
{
    let earlier = |x: ((u64, u64), u64), y: ((u64, u64), u64)| pair_before(x.0, y.0);
    assert forall|x: ((u64, u64), u64)| a.contains(x) implies #[trigger] b.contains(x) by {
        let i = choose|i: int| 0 <= i < a.len() && a[i] == x;
        assert(list.to_multiset().count(x.0) > 0);
        let j = choose|j: int| 0 <= j < b.len() && (#[trigger] b[j]).0 == x.0;
        assert(b[j] == x);
    }
    assert forall|x: ((u64, u64), u64)| b.contains(x) implies #[trigger] a.contains(x) by {
        let i = choose|i: int| 0 <= i < b.len() && b[i] == x;
        assert(list.to_multiset().count(x.0) > 0);
        let j = choose|j: int| 0 <= j < a.len() && (#[trigger] a[j]).0 == x.0;
        assert(a[j] == x);
    }
    assert forall|i: int, j: int| 0 <= i < j < a.len() implies earlier(
        #[trigger] a[i],
        #[trigger] a[j],
    ) by {}
    assert forall|i: int, j: int| 0 <= i < j < b.len() implies earlier(
        #[trigger] b[i],
        #[trigger] b[j],
    ) by {}
    lemma_same_in_strict_order(a, b, earlier);
}

/// Every list has a tally, where its length can be counted.
pub proof fn lemma_a_list_has_a_tally(list: Seq<(u64, u64)>)
    requires
        list.len() <= u64::MAX,
    ensures
        is_tally(tally_of(list), list),
    decreases list.len(),
{
    if list.len() == 0 {
        list.to_multiset_ensures();
        assert(is_tally(Seq::empty(), list));
    } else {
        let rest = list.drop_last();
        let pair = list.last();
        lemma_a_list_has_a_tally(rest);
        let held = tally_of(rest);
        assert(rest.push(pair) =~= list);
        if exists|k: int| 0 <= k < held.len() && (#[trigger] held[k]).0 == pair {
            let k = choose|k: int| 0 <= k < held.len() && (#[trigger] held[k]).0 == pair;
            lemma_a_pair_is_counted_again(held, rest, k);
        } else {
            lemma_a_pair_has_a_place(held, rest, pair, held.len() as int);
            let p = choose|p: int| #[trigger] is_place(held, pair, p, held.len() as int);
            lemma_a_pair_is_counted_first(held, rest, pair, p);
        }
    }
}

/// A tally with one of its pairs counted once more.
proof fn lemma_a_pair_is_counted_again(
    held: Seq<((u64, u64), u64)>,
    list: Seq<(u64, u64)>,
    k: int,
)
    requires
        is_tally(held, list),
        list.len() < u64::MAX,
        0 <= k < held.len(),
    ensures
        is_tally(
            held.update(k, (held[k].0, (held[k].1 + 1) as u64)),
            list.push(held[k].0),
        ),
{
    let pair = held[k].0;
    let out = held.update(k, (pair, (held[k].1 + 1) as u64));
    let more = list.push(pair);
    list.to_multiset_ensures();
    more.to_multiset_ensures();
    assert(more.to_multiset() == list.to_multiset().insert(pair));
    assert(held[k].1 == list.to_multiset().count(pair));
    assert(list.to_multiset().count(pair) <= list.to_multiset().len());
    assert forall|i: int| 0 <= i < out.len() implies (#[trigger] out[i]).1 > 0 && out[i].1
        == more.to_multiset().count(out[i].0) by {
        assert(held[i].1 == list.to_multiset().count(held[i].0));
        if i < k {
            assert(pair_before(held[i].0, held[k].0));
        } else if k < i {
            assert(pair_before(held[k].0, held[i].0));
        }
    }
    assert forall|p: (u64, u64)| #[trigger]
        more.to_multiset().count(p) > 0 implies exists|i: int|
        0 <= i < out.len() && (#[trigger] out[i]).0 == p by {
        if p == pair {
            assert(out[k].0 == p);
        } else {
            assert(list.to_multiset().count(p) > 0);
            let i = choose|i: int| 0 <= i < held.len() && (#[trigger] held[i]).0 == p;
            assert(out[i].0 == p);
        }
    }
    assert forall|i: int, j: int| 0 <= i < j < out.len() implies pair_before(
        (#[trigger] out[i]).0,
        (#[trigger] out[j]).0,
    ) by {
        assert(pair_before(held[i].0, held[j].0));
    }
}

/// Whether a pair belongs at `p` among the first `n` entries of a tally.
spec fn is_place(held: Seq<((u64, u64), u64)>, pair: (u64, u64), p: int, n: int) -> bool {
    &&& 0 <= p <= n
    &&& forall|i: int| 0 <= i < p ==> pair_before((#[trigger] held[i]).0, pair)
    &&& forall|i: int| p <= i < n ==> pair_before(pair, (#[trigger] held[i]).0)
}

/// A pair that a tally does not have belongs somewhere in it.
proof fn lemma_a_pair_has_a_place(
    held: Seq<((u64, u64), u64)>,
    list: Seq<(u64, u64)>,
    pair: (u64, u64),
    n: int,
)
    requires
        is_tally(held, list),
        0 <= n <= held.len(),
        forall|i: int| 0 <= i < held.len() ==> (#[trigger] held[i]).0 != pair,
    ensures
        exists|p: int| #[trigger] is_place(held, pair, p, n),
    decreases n,
{
    if n == 0 {
        assert(is_place(held, pair, 0, 0));
    } else {
        lemma_a_pair_has_a_place(held, list, pair, n - 1);
        let p = choose|p: int| #[trigger] is_place(held, pair, p, n - 1);
        assert(held[n - 1].0 != pair);
        if pair_before(pair, held[n - 1].0) {
            assert(is_place(held, pair, p, n));
        } else {
            assert(pair_before(held[n - 1].0, pair));
            assert forall|i: int| 0 <= i < n implies pair_before((#[trigger] held[i]).0, pair) by {
                if i < n - 1 {
                    assert(pair_before(held[i].0, held[n - 1].0));
                }
            }
            assert(is_place(held, pair, n, n));
        }
    }
}

/// A tally with a pair that it did not have.
proof fn lemma_a_pair_is_counted_first(
    held: Seq<((u64, u64), u64)>,
    list: Seq<(u64, u64)>,
    pair: (u64, u64),
    p: int,
)
    requires
        is_tally(held, list),
        is_place(held, pair, p, held.len() as int),
    ensures
        is_tally(held.insert(p, (pair, 1)), list.push(pair)),
{
    let out = held.insert(p, (pair, 1));
    let more = list.push(pair);
    list.to_multiset_ensures();
    more.to_multiset_ensures();
    assert(more.to_multiset() == list.to_multiset().insert(pair));
    assert(forall|i: int| 0 <= i < p ==> out[i] == held[i]);
    assert(forall|i: int| p < i < out.len() ==> out[i] == held[i - 1]);
    assert(list.to_multiset().count(pair) == 0) by {
        if list.to_multiset().count(pair) > 0 {
            let i = choose|i: int| 0 <= i < held.len() && (#[trigger] held[i]).0 == pair;
            assert(pair_before(held[i].0, pair) || pair_before(pair, held[i].0));
        }
    }
    assert forall|i: int| 0 <= i < out.len() implies (#[trigger] out[i]).1 > 0 && out[i].1
        == more.to_multiset().count(out[i].0) by {
        if i != p {
            let k = if i < p {
                i
            } else {
                i - 1
            };
            assert(out[i] == held[k]);
            assert(held[k].1 == list.to_multiset().count(held[k].0));
            assert(pair_before(held[k].0, pair) || pair_before(pair, held[k].0));
        }
    }
    assert forall|q: (u64, u64)| #[trigger]
        more.to_multiset().count(q) > 0 implies exists|i: int|
        0 <= i < out.len() && (#[trigger] out[i]).0 == q by {
        if q == pair {
            assert(out[p].0 == q);
        } else {
            assert(list.to_multiset().count(q) > 0);
            let i = choose|i: int| 0 <= i < held.len() && (#[trigger] held[i]).0 == q;
            if i < p {
                assert(out[i].0 == q);
            } else {
                assert(out[i + 1].0 == q);
            }
        }
    }
    assert forall|i: int, j: int| 0 <= i < j < out.len() implies pair_before(
        (#[trigger] out[i]).0,
        (#[trigger] out[j]).0,
    ) by {
        let a = if i <= p {
            i
        } else {
            i - 1
        };
        let b = if j <= p {
            j
        } else {
            j - 1
        };
        if i != p && j != p {
            assert(pair_before(held[a].0, held[b].0));
        } else if i == p {
            assert(pair_before(pair, held[b].0));
        } else {
            assert(pair_before(held[a].0, pair));
        }
    }
}

/// What the entries of a tally count in all.
pub open spec fn counted_in_all(out: Seq<((u64, u64), u64)>) -> int
    decreases out.len(),
{
    if out.len() == 0 {
        0
    } else {
        counted_in_all(out.drop_last()) + out.last().1
    }
}

/// A tally counts every pair of its list once: its counts add up to the list's
/// length.
pub proof fn law_a_tally_counts_every_pair_once(
    out: Seq<((u64, u64), u64)>,
    list: Seq<(u64, u64)>,
)
    requires
        is_tally(out, list),
    ensures
        counted_in_all(out) == list.len(),
{
    let keys = out.map_values(|e: ((u64, u64), u64)| e.0);
    assert forall|i: int, j: int| 0 <= i < j < keys.len() implies keys[i] != keys[j] by {
        assert(pair_before(out[i].0, out[j].0));
    }
    list.to_multiset_ensures();
    assert forall|i: int| 0 <= i < list.len() implies keys.contains(#[trigger] list[i]) by {
        assert(list.contains(list[i]));
        assert(list.to_multiset().count(list[i]) > 0);
        let k = choose|k: int| 0 <= k < out.len() && (#[trigger] out[k]).0 == list[i];
        assert(keys[k] == list[i]);
    }
    lemma_keys_occur(keys, list);
    lemma_counts_are_occurrences(out, list, out.len() as int);
    assert(out.take(out.len() as int) =~= out);
    assert(keys.take(out.len() as int) =~= keys);
}

/// How often these pairs occur in a list, all together.
spec fn occurrences(keys: Seq<(u64, u64)>, list: Seq<(u64, u64)>) -> int
    decreases keys.len(),
{
    if keys.len() == 0 {
        0
    } else {
        occurrences(keys.drop_last(), list) + list.to_multiset().count(keys.last())
    }
}

/// How often a pair stands in a list.
spec fn times(keys: Seq<(u64, u64)>, pair: (u64, u64)) -> int
    decreases keys.len(),
{
    if keys.len() == 0 {
        0
    } else {
        times(keys.drop_last(), pair) + if keys.last() == pair {
            1int
        } else {
            0
        }
    }
}

/// The first counts of a tally are how often its first pairs occur.
proof fn lemma_counts_are_occurrences(
    out: Seq<((u64, u64), u64)>,
    list: Seq<(u64, u64)>,
    n: int,
)
    requires
        is_tally(out, list),
        0 <= n <= out.len(),
    ensures
        counted_in_all(out.take(n)) == occurrences(
            out.map_values(|e: ((u64, u64), u64)| e.0).take(n),
            list,
        ),
    decreases n,
{
    if n > 0 {
        let keys = out.map_values(|e: ((u64, u64), u64)| e.0);
        lemma_counts_are_occurrences(out, list, n - 1);
        assert(out.take(n).drop_last() =~= out.take(n - 1));
        assert(keys.take(n).drop_last() =~= keys.take(n - 1));
        assert(out[n - 1].1 == list.to_multiset().count(out[n - 1].0));
    }
}

/// One more entry of a list is met by the pairs that are the same.
proof fn lemma_one_more_occurrence(
    keys: Seq<(u64, u64)>,
    list: Seq<(u64, u64)>,
    pair: (u64, u64),
)
    ensures
        occurrences(keys, list.push(pair)) == occurrences(keys, list) + times(keys, pair),
    decreases keys.len(),
{
    if keys.len() > 0 {
        lemma_one_more_occurrence(keys.drop_last(), list, pair);
        list.to_multiset_ensures();
    }
}

/// A pair stands once in a list where it does, and no two entries are the same.
proof fn lemma_times_of_distinct(keys: Seq<(u64, u64)>, pair: (u64, u64))
    requires
        forall|i: int, j: int| 0 <= i < j < keys.len() ==> keys[i] != keys[j],
    ensures
        times(keys, pair) == if keys.contains(pair) {
            1int
        } else {
            0
        },
    decreases keys.len(),
{
    if keys.len() > 0 {
        let rest = keys.drop_last();
        lemma_times_of_distinct(rest, pair);
        if keys.last() == pair {
            assert(keys[keys.len() - 1] == pair);
            assert(!rest.contains(pair)) by {
                if rest.contains(pair) {
                    let k = choose|k: int| 0 <= k < rest.len() && rest[k] == pair;
                    assert(keys[k] == keys[keys.len() - 1]);
                }
            }
        } else if keys.contains(pair) {
            let k = choose|k: int| 0 <= k < keys.len() && keys[k] == pair;
            assert(rest[k] == pair);
        } else if rest.contains(pair) {
            let k = choose|k: int| 0 <= k < rest.len() && rest[k] == pair;
            assert(keys[k] == pair);
        }
    }
}

/// Distinct pairs that hold every entry of a list occur in it as often as it is long.
proof fn lemma_keys_occur(keys: Seq<(u64, u64)>, list: Seq<(u64, u64)>)
    requires
        forall|i: int, j: int| 0 <= i < j < keys.len() ==> keys[i] != keys[j],
        forall|i: int| 0 <= i < list.len() ==> keys.contains(#[trigger] list[i]),
    ensures
        occurrences(keys, list) == list.len(),
    decreases list.len(),
{
    if list.len() == 0 {
        lemma_nothing_occurs(keys, list);
    } else {
        let rest = list.drop_last();
        assert forall|i: int| 0 <= i < rest.len() implies keys.contains(#[trigger] rest[i]) by {
            assert(rest[i] == list[i]);
        }
        lemma_keys_occur(keys, rest);
        lemma_one_more_occurrence(keys, rest, list.last());
        lemma_times_of_distinct(keys, list.last());
        assert(keys.contains(list[list.len() - 1]));
        assert(rest.push(list.last()) =~= list);
    }
}

/// Nothing occurs in an empty list.
proof fn lemma_nothing_occurs(keys: Seq<(u64, u64)>, list: Seq<(u64, u64)>)
    requires
        list.len() == 0,
    ensures
        occurrences(keys, list) == 0,
    decreases keys.len(),
{
    if keys.len() > 0 {
        lemma_nothing_occurs(keys.drop_last(), list);
        list.to_multiset_ensures();
        assert(list.to_multiset().count(keys.last()) == 0);
    }
}

/// Two lists in a strict order with the same entries are the same.
pub proof fn lemma_same_in_strict_order<T>(a: Seq<T>, b: Seq<T>, earlier: spec_fn(T, T) -> bool)
    requires
        forall|x: T, y: T| #[trigger] earlier(x, y) ==> !earlier(y, x),
        forall|x: T| a.contains(x) ==> #[trigger] b.contains(x),
        forall|x: T| b.contains(x) ==> #[trigger] a.contains(x),
        forall|i: int, j: int| 0 <= i < j < a.len() ==> earlier(#[trigger] a[i], #[trigger] a[j]),
        forall|i: int, j: int| 0 <= i < j < b.len() ==> earlier(#[trigger] b[i], #[trigger] b[j]),
    ensures
        a == b,
    decreases a.len(),
{
    if a.len() == 0 {
        if b.len() > 0 {
            assert(b.contains(b[0]));
            assert(a.contains(b[0]));
        }
        assert(a =~= b);
    } else {
        assert(a.contains(a[0]));
        assert(b.contains(a[0]));
        let k = choose|k: int| 0 <= k < b.len() && b[k] == a[0];
        assert(b.contains(b[0]));
        assert(a.contains(b[0]));
        let m = choose|m: int| 0 <= m < a.len() && a[m] == b[0];
        assert(a[0] == b[0]) by {
            if m > 0 && k > 0 {
                assert(earlier(a[0], a[m]));
                assert(earlier(b[0], b[k]));
            }
        }
        let ra = a.drop_first();
        let rb = b.drop_first();
        assert forall|x: T| ra.contains(x) implies #[trigger] rb.contains(x) by {
            let i = choose|i: int| 0 <= i < ra.len() && ra[i] == x;
            assert(a[i + 1] == x);
            assert(a.contains(x));
            assert(b.contains(x));
            let j = choose|j: int| 0 <= j < b.len() && b[j] == x;
            assert(earlier(a[0], a[i + 1]));
            assert(rb[j - 1] == x);
        }
        assert forall|x: T| rb.contains(x) implies #[trigger] ra.contains(x) by {
            let i = choose|i: int| 0 <= i < rb.len() && rb[i] == x;
            assert(b[i + 1] == x);
            assert(b.contains(x));
            assert(a.contains(x));
            let j = choose|j: int| 0 <= j < a.len() && a[j] == x;
            assert(earlier(b[0], b[i + 1]));
            assert(ra[j - 1] == x);
        }
        lemma_same_in_strict_order(ra, rb, earlier);
        assert(a =~= seq![a[0]] + ra);
        assert(b =~= seq![b[0]] + rb);
    }
}

/// The pairs of a list, each once and with how often it occurs, in order.
pub fn tally(list: &Vec<(u64, u64)>) -> (out: Vec<((u64, u64), u64)>)
    ensures
        is_tally(out@, list@),
        out@ == tally_of(list@),
        forall|i: int| 0 <= i < out@.len() ==> (#[trigger] out@[i]).1 <= list@.len(),
{
    let sorted: Vec<(u64, u64)> = sort_pairs(list);
    let mut out: Vec<((u64, u64), u64)> = Vec::new();
    let mut k: usize = 0;
    while k < sorted.len()
        invariant
            k <= sorted@.len(),
            sorted@.len() == list@.len(),
            is_sorted_form(sorted@, list@),
            forall|n: int|
                0 <= n < out@.len() ==> (#[trigger] out@[n]).1 > 0 && out@[n].1 <= k && out@[n].1
                    == sorted@.take(k as int).to_multiset().count(out@[n].0),
            forall|n: int|
                0 <= n < k ==> exists|m: int|
                    0 <= m < out@.len() && #[trigger] sorted@[n] == (#[trigger] out@[m]).0,
            forall|n: int, m: int|
                0 <= n < m < out@.len() ==> pair_before(
                    (#[trigger] out@[n]).0,
                    (#[trigger] out@[m]).0,
                ),
            k > 0 ==> out@.len() > 0 && out@.last().0 == sorted@[k - 1],
            k == 0 ==> out@.len() == 0,
        decreases sorted@.len() - k,
    {
        let pair: (u64, u64) = sorted[k];
        let ghost seen = sorted@.take(k as int);
        let ghost held = out@;
        proof {
            assert(sorted@.take(k + 1) =~= seen.push(pair));
            if k > 0 {
                assert(pair_le(sorted@[k - 1], sorted@[k as int]));
            }
        }
        let last: usize = out.len();
        if last > 0 && out[last - 1].0.0 == pair.0 && out[last - 1].0.1 == pair.1 {
            let n: u64 = out[last - 1].1;
            out.set(last - 1, (pair, n + 1));
            assert forall|n: int| 0 <= n < out@.len() implies (#[trigger] out@[n]).1 > 0
                && out@[n].1 <= k + 1 && out@[n].1 == sorted@.take(k + 1).to_multiset().count(
                out@[n].0,
            ) by {
                broadcast use vstd::seq_lib::group_to_multiset_ensures;

                assert(held[n].1 == seen.to_multiset().count(held[n].0));
                if n < last - 1 {
                    assert(pair_before(held[n].0, held[last - 1].0));
                }
            }
            assert forall|n: int| 0 <= n < k + 1 implies exists|m: int|
                0 <= m < out@.len() && #[trigger] sorted@[n] == (#[trigger] out@[m]).0 by {
                if n < k {
                    let m = choose|m: int|
                        0 <= m < held.len() && sorted@[n] == (#[trigger] held[m]).0;
                    assert(out@[m].0 == sorted@[n]);
                } else {
                    assert(out@[last - 1].0 == sorted@[n]);
                }
            }
            assert forall|n: int, m: int| 0 <= n < m < out@.len() implies pair_before(
                (#[trigger] out@[n]).0,
                (#[trigger] out@[m]).0,
            ) by {
                assert(pair_before(held[n].0, held[m].0));
            }
        } else {
            out.push((pair, 1));
            assert forall|n: int| 0 <= n < held.len() implies pair_before(
                (#[trigger] held[n]).0,
                pair,
            ) by {
                if n < last - 1 {
                    assert(pair_before(held[n].0, held[last - 1].0));
                }
            }
            proof {
                broadcast use vstd::seq_lib::group_to_multiset_ensures;

                assert(seen.to_multiset().count(pair) == 0) by {
                    if seen.contains(pair) {
                        let n = choose|n: int| 0 <= n < seen.len() && seen[n] == pair;
                        assert(sorted@[n] == pair);
                        let m = choose|m: int|
                            0 <= m < held.len() && sorted@[n] == (#[trigger] held[m]).0;
                        assert(pair_before(held[m].0, pair));
                    }
                }
            }
            assert forall|n: int| 0 <= n < out@.len() implies (#[trigger] out@[n]).1 > 0
                && out@[n].1 <= k + 1 && out@[n].1 == sorted@.take(k + 1).to_multiset().count(
                out@[n].0,
            ) by {
                broadcast use vstd::seq_lib::group_to_multiset_ensures;

                if n < held.len() {
                    assert(held[n].1 == seen.to_multiset().count(held[n].0));
                    assert(pair_before(held[n].0, pair));
                }
            }
            assert forall|n: int| 0 <= n < k + 1 implies exists|m: int|
                0 <= m < out@.len() && #[trigger] sorted@[n] == (#[trigger] out@[m]).0 by {
                if n < k {
                    let m = choose|m: int|
                        0 <= m < held.len() && sorted@[n] == (#[trigger] held[m]).0;
                    assert(out@[m].0 == sorted@[n]);
                } else {
                    assert(out@[last as int].0 == sorted@[n]);
                }
            }
            assert forall|n: int, m: int| 0 <= n < m < out@.len() implies pair_before(
                (#[trigger] out@[n]).0,
                (#[trigger] out@[m]).0,
            ) by {
                if m < held.len() {
                    assert(pair_before(held[n].0, held[m].0));
                }
            }
        }
        k = k + 1;
    }
    proof {
        broadcast use vstd::seq_lib::group_to_multiset_ensures;

        assert(sorted@.take(sorted@.len() as int) =~= sorted@);
        assert forall|pair: (u64, u64)| #[trigger] list@.to_multiset().count(
            pair,
        ) > 0 implies exists|i: int| 0 <= i < out@.len() && (#[trigger] out@[i]).0 == pair by {
            assert(sorted@.contains(pair));
            let n = choose|n: int| 0 <= n < sorted@.len() && sorted@[n] == pair;
            let m = choose|m: int| 0 <= m < out@.len() && sorted@[n] == (#[trigger] out@[m]).0;
            assert(out@[m].0 == pair);
        }
        assert(is_tally(out@, list@));
        law_a_tally_is_unique(out@, tally_of(list@), list@);
    }
    out
}

/// The head of a list is its first items, as many as the limit allows.
pub proof fn law_the_head_is_the_first_items<T>(list: Seq<T>, limit: int, i: int)
    requires
        0 <= limit,
    ensures
        head(list, limit).len() == if list.len() < limit {
            list.len() as int
        } else {
            limit
        },
        0 <= i < list.len() && i < limit ==> head(list, limit)[i] == list[i],
{
}

/// A list in order ascends by its first number and, where that is the same, by its second.
pub proof fn law_the_first_number_decides(a: Seq<(u64, u64)>, list: Seq<(u64, u64)>, i: int, j: int)
    requires
        is_sorted_form(a, list),
        0 <= i <= j < a.len(),
    ensures
        a[i].0 <= a[j].0,
        a[i].0 == a[j].0 ==> a[i].1 <= a[j].1,
        a.to_multiset() == list.to_multiset(),
{
    if i < j {
        assert(pair_le(a[i], a[j]));
    }
}

} // verus!
