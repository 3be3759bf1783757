//! Charging numbers to names, and ranking the names by what they were charged.
//!
//! A name has two parts; where only one is needed the second is empty.

use vstd::prelude::*;

use crate::order::sort_pairs;
#[allow(unused_imports)]
use crate::order::{lemma_same_in_strict_order, pair_le};
use crate::text::{before, same_text};
#[allow(unused_imports)]
use crate::text::{
    lemma_before_is_irreflexive, lemma_before_is_total, lemma_before_is_transitive, text_before,
};
#[allow(unused_imports)]
use crate::totals::{
    has_key, is_strict_order, keys_of, lemma_rows_add_up, lemma_rows_in_order_exist, total, weight,
};

verus! {

/// A name in two parts, as contracts speak of it.
pub type Key = (Seq<char>, Seq<char>);

/// A name and what it was charged.
pub type Charge = (Key, u64);

/// Names in order: by the first part, then by the second.
pub open spec fn key_before(a: Key, b: Key) -> bool {
    text_before(a.0, b.0) || (a.0 == b.0 && text_before(a.1, b.1))
}

/// What a name was charged in all.
pub open spec fn charged(items: Seq<Charge>, key: Key) -> int
    decreases items.len(),
{
    if items.len() == 0 {
        0
    } else {
        let rest = charged(items.drop_last(), key);
        if items.last().0 == key {
            rest + items.last().1
        } else {
            rest
        }
    }
}

/// What all names were charged together.
pub open spec fn charged_in_all(items: Seq<Charge>) -> int
    decreases items.len(),
{
    if items.len() == 0 {
        0
    } else {
        charged_in_all(items.drop_last()) + items.last().1
    }
}

/// Whether a name was charged at all.
pub open spec fn occurs(items: Seq<Charge>, key: Key) -> bool {
    exists|i: int| 0 <= i < items.len() && (#[trigger] items[i]).0 == key
}

/// Whether one row comes before another: it was charged more, or as much and its
/// name comes first.
pub open spec fn row_before(a: Charge, b: Charge) -> bool {
    a.1 > b.1 || (a.1 == b.1 && key_before(a.0, b.0))
}

/// Whether these are the names that were charged, each once with what it was charged
/// in all, in order.
pub open spec fn is_name_ranking(rows: Seq<Charge>, items: Seq<Charge>) -> bool {
    &&& forall|i: int|
        0 <= i < rows.len() ==> occurs(items, (#[trigger] rows[i]).0) && rows[i].1 == charged(
            items,
            rows[i].0,
        )
    &&& forall|key: Key| #[trigger]
        occurs(items, key) ==> exists|i: int| 0 <= i < rows.len() && (#[trigger] rows[i]).0 == key
    &&& forall|i: int, j: int|
        0 <= i < j < rows.len() ==> row_before(#[trigger] rows[i], #[trigger] rows[j])
}

/// The names that were charged, ranked.
pub open spec fn name_ranking(items: Seq<Charge>) -> Seq<Charge> {
    choose|rows: Seq<Charge>| is_name_ranking(rows, items)
}

/// No name comes before itself, nor before one that comes before it.
proof fn lemma_keys_are_ordered(a: Key, b: Key)
    ensures
        !key_before(a, a),
        !(key_before(a, b) && key_before(b, a)),
        key_before(a, b) || key_before(b, a) || a == b,
{
    lemma_before_is_total(a.0, b.0);
    lemma_before_is_total(a.1, b.1);
    lemma_before_is_irreflexive(a.0);
    lemma_before_is_irreflexive(a.1);
}

/// What comes before a name that comes before another comes before that one.
proof fn lemma_keys_are_transitive(a: Key, b: Key, c: Key)
    requires
        key_before(a, b),
        key_before(b, c),
    ensures
        key_before(a, c),
{
    if text_before(a.0, b.0) && text_before(b.0, c.0) {
        lemma_before_is_transitive(a.0, b.0, c.0);
    } else if a.0 == b.0 && b.0 == c.0 {
        lemma_before_is_transitive(a.1, b.1, c.1);
    }
}

/// The names that were charged have one ranking and no other: equal charges are told
/// apart by name, so that no two runs rank them differently.
pub proof fn law_a_name_ranking_is_unique(a: Seq<Charge>, b: Seq<Charge>, items: Seq<Charge>)
    requires
        is_name_ranking(a, items),
        is_name_ranking(b, items),
    ensures
        a == b,
{
    let earlier = |x: Charge, y: Charge| row_before(x, y);
    assert forall|x: Charge| a.contains(x) implies #[trigger] b.contains(x) by {
        let i = choose|i: int| 0 <= i < a.len() && a[i] == x;
        assert(occurs(items, x.0));
        let j = choose|j: int| 0 <= j < b.len() && (#[trigger] b[j]).0 == x.0;
        assert(b[j] == x);
    }
    assert forall|x: Charge| b.contains(x) implies #[trigger] a.contains(x) by {
        let i = choose|i: int| 0 <= i < b.len() && b[i] == x;
        assert(occurs(items, x.0));
        let j = choose|j: int| 0 <= j < a.len() && (#[trigger] a[j]).0 == x.0;
        assert(a[j] == x);
    }
    assert forall|x: Charge, y: Charge| #[trigger] earlier(x, y) implies !earlier(y, x) by {
        lemma_keys_are_ordered(x.0, y.0);
    }
    assert forall|i: int, j: int| 0 <= i < j < a.len() implies earlier(
        #[trigger] a[i],
        #[trigger] a[j],
    ) by {}
    assert forall|i: int, j: int| 0 <= i < j < b.len() implies earlier(
        #[trigger] b[i],
        #[trigger] b[j],
    ) by {}
    lemma_same_in_strict_order(a, b, earlier);
}

/// Charging names is giving to keys.
proof fn lemma_charges_are_weights(items: Seq<Charge>, key: Key)
    ensures
        charged(items, key) == weight(items, key),
        charged_in_all(items) == total(items),
        occurs(items, key) == has_key(items, key),
    decreases items.len(),
{
    if items.len() > 0 {
        lemma_charges_are_weights(items.drop_last(), key);
    }
    if occurs(items, key) {
        let i = choose|i: int| 0 <= i < items.len() && (#[trigger] items[i]).0 == key;
        assert(has_key(items, key));
    }
}

/// Rows come one before the other, and only one way round.
proof fn lemma_rows_are_ordered()
    ensures
        is_strict_order(|x: Charge, y: Charge| row_before(x, y)),
{
    let earlier = |x: Charge, y: Charge| row_before(x, y);
    assert forall|x: Charge, y: Charge| #[trigger] earlier(x, y) implies !earlier(y, x) by {
        lemma_keys_are_ordered(x.0, y.0);
    }
    assert forall|x: Charge, y: Charge| x != y implies #[trigger] earlier(x, y) || earlier(
        y,
        x,
    ) by {
        lemma_keys_are_ordered(x.0, y.0);
    }
    assert forall|x: Charge, y: Charge, z: Charge| #[trigger]
        earlier(x, y) && #[trigger] earlier(y, z) implies earlier(x, z) by {
        if x.1 == y.1 && y.1 == z.1 {
            lemma_keys_are_transitive(x.0, y.0, z.0);
        }
    }
}

/// The rows of a ranking add up to what was charged.
pub proof fn law_a_ranking_adds_up_to_the_charges(rows: Seq<Charge>, items: Seq<Charge>)
    requires
        is_name_ranking(rows, items),
    ensures
        charged_in_all(rows) == charged_in_all(items),
{
    assert(keys_of(rows).no_duplicates()) by {
        assert forall|i: int, j: int| 0 <= i < rows.len() && 0 <= j < rows.len() && i
            != j implies keys_of(rows)[i] != keys_of(rows)[j] by {
            if rows[i].0 == rows[j].0 {
                assert(rows[i].1 == rows[j].1);
                lemma_keys_are_ordered(rows[i].0, rows[j].0);
                if i < j {
                    assert(row_before(rows[i], rows[j]));
                } else {
                    assert(row_before(rows[j], rows[i]));
                }
            }
        }
    }
    assert forall|i: int| 0 <= i < rows.len() implies (#[trigger] rows[i]).1 == weight(
        items,
        rows[i].0,
    ) by {
        lemma_charges_are_weights(items, rows[i].0);
    }
    assert forall|i: int| 0 <= i < items.len() implies has_key(rows, (#[trigger] items[i]).0) by {
        assert(occurs(items, items[i].0));
    }
    lemma_rows_add_up(rows, items);
    let any: Key = (Seq::empty(), Seq::empty());
    lemma_charges_are_weights(rows, any);
    lemma_charges_are_weights(items, any);
}

/// Whatever was charged has a ranking, and its rows add up to what was charged.
pub proof fn law_every_charge_is_ranked(items: Seq<Charge>)
    requires
        charged_in_all(items) <= u64::MAX,
    ensures
        is_name_ranking(name_ranking(items), items),
        charged_in_all(name_ranking(items)) == charged_in_all(items),
{
    let earlier = |x: Charge, y: Charge| row_before(x, y);
    lemma_rows_are_ordered();
    let any: Key = (Seq::empty(), Seq::empty());
    lemma_charges_are_weights(items, any);
    let rows = lemma_rows_in_order_exist(items, earlier);
    assert(is_name_ranking(rows, items)) by {
        assert forall|i: int| 0 <= i < rows.len() implies occurs(items, (#[trigger] rows[i]).0)
            && rows[i].1 == charged(items, rows[i].0) by {
            lemma_charges_are_weights(items, rows[i].0);
        }
        assert forall|key: Key| #[trigger] occurs(items, key) implies exists|i: int|
            0 <= i < rows.len() && (#[trigger] rows[i]).0 == key by {
            lemma_charges_are_weights(items, key);
            assert(has_key(rows, key));
        }
        assert forall|i: int, j: int| 0 <= i < j < rows.len() implies row_before(
            #[trigger] rows[i],
            #[trigger] rows[j],
        ) by {
            assert(earlier(rows[i], rows[j]));
        }
    }
    law_a_ranking_adds_up_to_the_charges(name_ranking(items), items);
}

/// No name is charged more than all together.
proof fn lemma_charged_is_bounded(items: Seq<Charge>, key: Key)
    ensures
        0 <= charged(items, key) <= charged_in_all(items),
    decreases items.len(),
{
    if items.len() > 0 {
        lemma_charged_is_bounded(items.drop_last(), key);
    }
}

/// What one more charge does.
proof fn lemma_one_more_charge(items: Seq<Charge>, charge: Charge, key: Key)
    ensures
        charged(items.push(charge), key) == charged(items, key) + (if charge.0 == key {
            charge.1 as int
        } else {
            0
        }),
        charged_in_all(items.push(charge)) == charged_in_all(items) + charge.1,
        occurs(items.push(charge), key) <==> occurs(items, key) || charge.0 == key,
{
    let more = items.push(charge);
    assert(more.drop_last() =~= items);
    if occurs(items, key) {
        let i = choose|i: int| 0 <= i < items.len() && (#[trigger] items[i]).0 == key;
        assert(more[i].0 == key);
    }
    if charge.0 == key {
        assert(more[items.len() as int].0 == key);
    }
    if occurs(more, key) && charge.0 != key {
        let i = choose|i: int| 0 <= i < more.len() && (#[trigger] more[i]).0 == key;
        assert(items[i].0 == key);
    }
}

/// A name that was never charged was charged nothing.
proof fn lemma_not_charged(items: Seq<Charge>, key: Key)
    requires
        !occurs(items, key),
    ensures
        charged(items, key) == 0,
    decreases items.len(),
{
    if items.len() > 0 {
        let rest = items.drop_last();
        assert(items[items.len() - 1].0 != key);
        assert(!occurs(rest, key)) by {
            if occurs(rest, key) {
                let i = choose|i: int| 0 <= i < rest.len() && (#[trigger] rest[i]).0 == key;
                assert(items[i].0 == key);
            }
        }
        lemma_not_charged(rest, key);
    }
}

/// A row of a ranking.
#[derive(Debug, PartialEq, Eq)]
pub struct Row {
    pub name: String,
    pub part: String,
    pub charge: u64,
}

/// What a row says.
pub open spec fn row_of(row: Row) -> Charge {
    ((row.name@, row.part@), row.charge)
}

/// What the rows say.
pub open spec fn rows_of(rows: Seq<Row>) -> Seq<Charge> {
    rows.map_values(|row: Row| row_of(row))
}

/// Names with what they were charged.
pub struct Charges {
    keys: Vec<(String, String)>,
    sums: Vec<u64>,
    items: Ghost<Seq<Charge>>,
}

impl Charges {
    /// Every charge that was made, in the order in which it was made.
    pub closed spec fn made(&self) -> Seq<Charge> {
        self.items@
    }

    /// The name at a place.
    spec fn key(&self, i: int) -> Key {
        (self.keys@[i].0@, self.keys@[i].1@)
    }

    /// The names are in order, each once, with what it was charged in all.
    pub closed spec fn wf(&self) -> bool {
        &&& self.keys@.len() == self.sums@.len()
        &&& forall|i: int|
            0 <= i < self.sums@.len() ==> occurs(self.items@, #[trigger] self.key(i))
                && self.sums@[i] == charged(self.items@, self.key(i))
        &&& forall|key: Key| #[trigger]
            occurs(self.items@, key) ==> exists|i: int|
                0 <= i < self.sums@.len() && #[trigger] self.key(i) == key
        &&& forall|i: int, j: int|
            0 <= i < j < self.sums@.len() ==> key_before(#[trigger] self.key(i), #[trigger] self.key(j))
    }

    /// Nothing was charged yet.
    pub fn new() -> (charges: Charges)
        ensures
            charges.wf(),
            charges.made() == Seq::<Charge>::empty(),
    {
        Charges { keys: Vec::new(), sums: Vec::new(), items: Ghost(Seq::empty()) }
    }

    /// The place of a name, or the place where it belongs.
    fn slot(&self, name: &str, part: &str) -> (at: usize)
        requires
            self.wf(),
        ensures
            at <= self.sums@.len(),
            forall|i: int| 0 <= i < at ==> key_before(#[trigger] self.key(i), (name@, part@)),
            forall|i: int|
                at <= i < self.sums@.len() ==> !key_before(#[trigger] self.key(i), (name@, part@)),
    {
        let ghost key = (name@, part@);
        let mut lo: usize = 0;
        let mut hi: usize = self.keys.len();
        while lo < hi
            invariant
                self.wf(),
                key == (name@, part@),
                lo <= hi <= self.sums@.len(),
                self.keys@.len() == self.sums@.len(),
                forall|i: int| 0 <= i < lo ==> key_before(#[trigger] self.key(i), key),
                forall|i: int| hi <= i < self.sums@.len() ==> !key_before(#[trigger] self.key(i), key),
            decreases hi - lo,
        {
            let mid: usize = lo + (hi - lo) / 2;
            let first: bool = before(self.keys[mid].0.as_str(), name);
            let same: bool = same_text(self.keys[mid].0.as_str(), name);
            let earlier: bool = first || (same && before(self.keys[mid].1.as_str(), part));
            assert(earlier == key_before(self.key(mid as int), key));
            if earlier {
                assert forall|i: int| 0 <= i < mid + 1 implies key_before(
                    #[trigger] self.key(i),
                    key,
                ) by {
                    if i < mid {
                        assert(key_before(self.key(i), self.key(mid as int)));
                        lemma_keys_are_transitive(self.key(i), self.key(mid as int), key);
                    }
                }
                lo = mid + 1;
            } else {
                assert forall|i: int| mid <= i < self.sums@.len() implies !key_before(
                    #[trigger] self.key(i),
                    key,
                ) by {
                    if i > mid && key_before(self.key(i), key) {
                        assert(key_before(self.key(mid as int), self.key(i)));
                        lemma_keys_are_transitive(self.key(mid as int), self.key(i), key);
                    }
                }
                hi = mid;
            }
        }
        lo
    }

    /// Charge a name.
    pub fn charge(&mut self, name: &str, part: &str, n: u64)
        requires
            old(self).wf(),
            charged_in_all(old(self).made()) + n <= u64::MAX,
        ensures
            final(self).wf(),
            final(self).made() == old(self).made().push(((name@, part@), n)),
    {
        let ghost key = (name@, part@);
        let ghost made = self.items@;
        let ghost more = made.push((key, n));
        let at: usize = self.slot(name, part);
        let ghost before_sums = self.sums@;
        let ghost whole = *self;
        proof {
            lemma_charged_is_bounded(made, key);
            assert forall|k: Key| #[trigger] occurs(more, k) <==> occurs(made, k) || k == key by {
                lemma_one_more_charge(made, (key, n), k);
            }
            assert forall|k: Key| #[trigger] charged(more, k) == charged(made, k) + (if k == key {
                n as int
            } else {
                0
            }) by {
                lemma_one_more_charge(made, (key, n), k);
            }
        }
        if at < self.keys.len() && same_text(self.keys[at].0.as_str(), name) && same_text(
            self.keys[at].1.as_str(),
            part,
        ) {
            let sum: u64 = self.sums[at];
            assert(whole.key(at as int) == key);
            assert(before_sums[at as int] == charged(made, key));
            self.sums.set(at, sum + n);
            self.items = Ghost(more);
            proof {
                assert forall|i: int| 0 <= i < self.sums@.len() implies occurs(
                    more,
                    #[trigger] self.key(i),
                ) && self.sums@[i] == charged(more, self.key(i)) by {
                    assert(self.key(i) == whole.key(i));
                    assert(whole.sums@[i] == charged(made, whole.key(i)));
                    if i < at {
                        assert(key_before(whole.key(i), key));
                        lemma_keys_are_ordered(key, key);
                    } else if i > at {
                        assert(key_before(whole.key(at as int), whole.key(i)));
                        lemma_keys_are_ordered(key, key);
                    }
                }
                assert forall|k: Key| #[trigger] occurs(more, k) implies exists|i: int|
                    0 <= i < self.sums@.len() && #[trigger] self.key(i) == k by {
                    if k == key {
                        assert(self.key(at as int) == k);
                    } else {
                        assert(occurs(made, k));
                        let i = choose|i: int|
                            0 <= i < whole.sums@.len() && #[trigger] whole.key(i) == k;
                        assert(self.key(i) == k);
                    }
                }
                assert forall|i: int, j: int| 0 <= i < j < self.sums@.len() implies key_before(
                    #[trigger] self.key(i),
                    #[trigger] self.key(j),
                ) by {
                    assert(key_before(whole.key(i), whole.key(j)));
                }
            }
        } else {
            proof {
                assert forall|i: int| at <= i < before_sums.len() implies key_before(
                    key,
                    #[trigger] whole.key(i),
                ) by {
                    lemma_keys_are_ordered(key, whole.key(i));
                    if whole.key(i) == key {
                        if i > at {
                            assert(key_before(whole.key(at as int), whole.key(i)));
                        }
                    }
                }
                assert(!occurs(made, key)) by {
                    if occurs(made, key) {
                        let i = choose|i: int|
                            0 <= i < whole.sums@.len() && #[trigger] whole.key(i) == key;
                        lemma_keys_are_ordered(key, key);
                        if i < at {
                            assert(key_before(whole.key(i), key));
                        } else {
                            assert(key_before(key, whole.key(i)));
                        }
                    }
                }
                lemma_not_charged(made, key);
            }
            self.keys.insert(at, (name.to_owned(), part.to_owned()));
            self.sums.insert(at, n);
            self.items = Ghost(more);
            proof {
                assert forall|i: int| 0 <= i < self.sums@.len() implies #[trigger] self.key(i) == (if i < at {
                    whole.key(i)
                } else if i == at {
                    key
                } else {
                    whole.key(i - 1)
                }) && self.sums@[i] == (if i < at {
                    before_sums[i]
                } else if i == at {
                    n
                } else {
                    before_sums[i - 1]
                }) by {}
                assert forall|i: int| 0 <= i < self.sums@.len() implies occurs(
                    more,
                    #[trigger] self.key(i),
                ) && self.sums@[i] == charged(more, self.key(i)) by {
                    lemma_keys_are_ordered(key, key);
                    if i < at {
                        assert(whole.sums@[i] == charged(made, whole.key(i)));
                        assert(key_before(whole.key(i), key));
                    } else if i > at {
                        assert(whole.sums@[i - 1] == charged(made, whole.key(i - 1)));
                        assert(key_before(key, whole.key(i - 1)));
                    }
                }
                assert forall|k: Key| #[trigger] occurs(more, k) implies exists|i: int|
                    0 <= i < self.sums@.len() && #[trigger] self.key(i) == k by {
                    if k == key {
                        assert(self.key(at as int) == k);
                    } else {
                        assert(occurs(made, k));
                        let i = choose|i: int|
                            0 <= i < whole.sums@.len() && #[trigger] whole.key(i) == k;
                        if i < at {
                            assert(self.key(i) == k);
                        } else {
                            assert(self.key(i + 1) == k);
                        }
                    }
                }
                assert forall|i: int, j: int| 0 <= i < j < self.sums@.len() implies key_before(
                    #[trigger] self.key(i),
                    #[trigger] self.key(j),
                ) by {
                    if j < at {
                        assert(key_before(whole.key(i), whole.key(j)));
                    } else if i > at {
                        assert(key_before(whole.key(i - 1), whole.key(j - 1)));
                    } else if i == at {
                        assert(key_before(key, whole.key(j - 1)));
                    } else if j == at {
                        assert(key_before(whole.key(i), key));
                    } else {
                        assert(key_before(whole.key(i), whole.key(j - 1)));
                    }
                }
            }
        }
    }

    /// The names that were charged, ranked.
    pub fn ranked(&self) -> (rows: Vec<Row>)
        requires
            self.wf(),
        ensures
            is_name_ranking(rows_of(rows@), self.made()),
            rows_of(rows@) == name_ranking(self.made()),
    {
        let mut places: Vec<(u64, u64)> = Vec::new();
        let mut i: usize = 0;
        while i < self.sums.len()
            invariant
                i <= self.sums@.len(),
                places@.len() == i,
                forall|k: int|
                    0 <= k < i ==> #[trigger] places@[k] == rank_place(self.sums@[k], k),
            decreases self.sums@.len() - i,
        {
            places.push((u64::MAX - self.sums[i], i as u64));
            i = i + 1;
        }
        let sorted: Vec<(u64, u64)> = sort_pairs(&places);
        proof {
            assert forall|n: int| 0 <= n < sorted@.len() implies ranks(self.sums@, #[trigger] sorted@[n]) by {
                broadcast use vstd::seq_lib::group_to_multiset_ensures;

                assert(sorted@.contains(sorted@[n]));
                assert(sorted@.to_multiset().count(sorted@[n]) > 0);
                assert(places@.contains(sorted@[n]));
                let m = choose|m: int| 0 <= m < places@.len() && places@[m] == sorted@[n];
                assert(places@[m] == rank_place(self.sums@[m], m));
            }
        }
        let len: usize = self.sums.len();
        let mut rows: Vec<Row> = Vec::new();
        let mut k: usize = 0;
        while k < sorted.len()
            invariant
                k <= sorted@.len(),
                len == self.sums@.len(),
                self.wf(),
                self.keys@.len() == self.sums@.len(),
                forall|n: int| 0 <= n < sorted@.len() ==> ranks(self.sums@, #[trigger] sorted@[n]),
                rows@.len() == k,
                forall|n: int|
                    0 <= n < k ==> row_of(#[trigger] rows@[n]) == (
                        self.key(sorted@[n].1 as int),
                        self.sums@[sorted@[n].1 as int],
                    ),
            decreases sorted@.len() - k,
        {
            assert(ranks(self.sums@, sorted@[k as int]));
            let at: usize = sorted[k].1 as usize;
            rows.push(
                Row {
                    name: self.keys[at].0.clone(),
                    part: self.keys[at].1.clone(),
                    charge: self.sums[at],
                },
            );
            k = k + 1;
        }
        proof {
            let out = rows_of(rows@);
            let made = self.items@;
            assert forall|n: int| 0 <= n < out.len() implies #[trigger] out[n] == (
                self.key(sorted@[n].1 as int),
                self.sums@[sorted@[n].1 as int],
            ) && ranks(self.sums@, sorted@[n]) by {
                assert(row_of(rows@[n]) == out[n]);
            }
            assert forall|n: int| 0 <= n < out.len() implies occurs(made, (#[trigger] out[n]).0)
                && out[n].1 == charged(made, out[n].0) by {
                let at = sorted@[n].1 as int;
                assert(self.sums@[at] == charged(made, self.key(at)));
            }
            assert forall|key: Key| #[trigger] occurs(made, key) implies exists|n: int|
                0 <= n < out.len() && (#[trigger] out[n]).0 == key by {
                broadcast use vstd::seq_lib::group_to_multiset_ensures;

                let m = choose|m: int| 0 <= m < self.sums@.len() && #[trigger] self.key(m) == key;
                assert(places@[m] == rank_place(self.sums@[m], m));
                assert(places@.contains(places@[m]));
                assert(places@.to_multiset().count(places@[m]) > 0);
                assert(sorted@.contains(places@[m]));
                let n = choose|n: int| 0 <= n < sorted@.len() && sorted@[n] == places@[m];
                assert(out[n].0 == key);
            }
            assert forall|n: int, m: int| 0 <= n < m < out.len() implies row_before(
                #[trigger] out[n],
                #[trigger] out[m],
            ) by {
                let a = sorted@[n].1 as int;
                let b = sorted@[m].1 as int;
                assert(pair_le(sorted@[n], sorted@[m]));
                lemma_places_are_distinct(self.sums@, places@, sorted@, n, m);
                if self.sums@[a] == self.sums@[b] {
                    assert(a < b);
                    assert(key_before(self.key(a), self.key(b)));
                }
            }
            assert(is_name_ranking(out, made));
            law_a_name_ranking_is_unique(out, name_ranking(made), made);
        }
        rows
    }
}

/// The pair that orders a name: more comes first, then the name's own place.
spec fn rank_place(sum: u64, place: int) -> (u64, u64) {
    ((u64::MAX - sum) as u64, place as u64)
}

/// Whether a pair orders one of the names.
spec fn ranks(sums: Seq<u64>, pair: (u64, u64)) -> bool {
    pair.1 < sums.len() && pair.0 == u64::MAX - sums[pair.1 as int]
}

/// No two names have the same pair.
proof fn lemma_places_are_distinct(
    sums: Seq<u64>,
    places: Seq<(u64, u64)>,
    sorted: Seq<(u64, u64)>,
    n: int,
    m: int,
)
    requires
        places.len() == sums.len(),
        sums.len() <= u64::MAX,
        forall|k: int| 0 <= k < places.len() ==> #[trigger] places[k] == rank_place(sums[k], k),
        sorted.to_multiset() == places.to_multiset(),
        0 <= n < m < sorted.len(),
    ensures
        sorted[n] != sorted[m],
{
    broadcast use vstd::seq_lib::group_to_multiset_ensures;

    assert(places.no_duplicates()) by {
        assert forall|i: int, j: int| 0 <= i < places.len() && 0 <= j < places.len() && i
            != j implies places[i] != places[j] by {
            assert(places[i].1 == i as u64);
            assert(places[j].1 == j as u64);
        }
    }
    places.lemma_multiset_has_no_duplicates();
    if sorted[n] == sorted[m] {
        let x = sorted[n];
        let front = sorted.take(m);
        assert(front[n] == x);
        assert(front.contains(x));
        assert(front.to_multiset().count(x) > 0);
        let upto = sorted.take(m + 1);
        assert(upto =~= front.push(x));
        assert(upto.to_multiset().count(x) > 1);
        assert(sorted =~= upto + sorted.skip(m + 1));
        vstd::seq_lib::lemma_multiset_commutative(upto, sorted.skip(m + 1));
        assert(sorted.to_multiset().count(x) > 1);
        assert(places.to_multiset().contains(x));
    }
}

// ---------------------------------------------------------------------------
// Sums by number
// ---------------------------------------------------------------------------

/// What a number was given in all.
pub open spec fn given(items: Seq<(u64, u64)>, number: u64) -> int
    decreases items.len(),
{
    if items.len() == 0 {
        0
    } else {
        let rest = given(items.drop_last(), number);
        if items.last().0 == number {
            rest + items.last().1
        } else {
            rest
        }
    }
}

/// What all numbers were given together.
pub open spec fn given_in_all(items: Seq<(u64, u64)>) -> int
    decreases items.len(),
{
    if items.len() == 0 {
        0
    } else {
        given_in_all(items.drop_last()) + items.last().1
    }
}

/// Whether a number was given anything.
pub open spec fn is_given(items: Seq<(u64, u64)>, number: u64) -> bool {
    exists|i: int| 0 <= i < items.len() && (#[trigger] items[i]).0 == number
}

/// Whether these are the numbers that were given something, each once with what it
/// was given in all, in order.
pub open spec fn is_sum_table(rows: Seq<(u64, u64)>, items: Seq<(u64, u64)>) -> bool {
    &&& forall|i: int|
        0 <= i < rows.len() ==> is_given(items, (#[trigger] rows[i]).0) && rows[i].1 == given(
            items,
            rows[i].0,
        )
    &&& forall|number: u64| #[trigger]
        is_given(items, number) ==> exists|i: int|
            0 <= i < rows.len() && (#[trigger] rows[i]).0 == number
    &&& forall|i: int, j: int|
        0 <= i < j < rows.len() ==> (#[trigger] rows[i]).0 < (#[trigger] rows[j]).0
}

/// The numbers that were given something, with what each was given in all.
pub open spec fn sum_table(items: Seq<(u64, u64)>) -> Seq<(u64, u64)> {
    choose|rows: Seq<(u64, u64)>| is_sum_table(rows, items)
}

/// There is one table of sums and no other.
pub proof fn law_a_sum_table_is_unique(
    a: Seq<(u64, u64)>,
    b: Seq<(u64, u64)>,
    items: Seq<(u64, u64)>,
)
    requires
        is_sum_table(a, items),
        is_sum_table(b, items),
    ensures
        a == b,
{
    let earlier = |x: (u64, u64), y: (u64, u64)| x.0 < y.0;
    assert forall|x: (u64, u64)| a.contains(x) implies #[trigger] b.contains(x) by {
        let i = choose|i: int| 0 <= i < a.len() && a[i] == x;
        assert(is_given(items, x.0));
        let j = choose|j: int| 0 <= j < b.len() && (#[trigger] b[j]).0 == x.0;
        assert(b[j] == x);
    }
    assert forall|x: (u64, u64)| b.contains(x) implies #[trigger] a.contains(x) by {
        let i = choose|i: int| 0 <= i < b.len() && b[i] == x;
        assert(is_given(items, x.0));
        let j = choose|j: int| 0 <= j < a.len() && (#[trigger] a[j]).0 == x.0;
        assert(a[j] == x);
    }
    assert forall|i: int, j: int| 0 <= i < j < a.len() implies earlier(
        #[trigger] a[i],
        #[trigger] a[j],
    ) by {}
    assert forall|i: int, j: int| 0 <= i < j < b.len() implies earlier(
        #[trigger] b[i],
        #[trigger] b[j],
    ) by {}
    lemma_same_in_strict_order(a, b, earlier);
}

/// Giving to numbers is giving to keys.
proof fn lemma_gifts_are_weights(items: Seq<(u64, u64)>, number: u64)
    ensures
        given(items, number) == weight(items, number),
        given_in_all(items) == total(items),
        is_given(items, number) == has_key(items, number),
    decreases items.len(),
{
    if items.len() > 0 {
        lemma_gifts_are_weights(items.drop_last(), number);
    }
    if is_given(items, number) {
        let i = choose|i: int| 0 <= i < items.len() && (#[trigger] items[i]).0 == number;
        assert(has_key(items, number));
    }
}

/// The rows of a table of sums add up to what was given.
pub proof fn law_a_sum_table_adds_up(rows: Seq<(u64, u64)>, items: Seq<(u64, u64)>)
    requires
        is_sum_table(rows, items),
    ensures
        given_in_all(rows) == given_in_all(items),
{
    assert(keys_of(rows).no_duplicates()) by {
        assert forall|i: int, j: int| 0 <= i < rows.len() && 0 <= j < rows.len() && i
            != j implies keys_of(rows)[i] != keys_of(rows)[j] by {
            if i < j {
                assert(rows[i].0 < rows[j].0);
            } else {
                assert(rows[j].0 < rows[i].0);
            }
        }
    }
    assert forall|i: int| 0 <= i < rows.len() implies (#[trigger] rows[i]).1 == weight(
        items,
        rows[i].0,
    ) by {
        lemma_gifts_are_weights(items, rows[i].0);
    }
    assert forall|i: int| 0 <= i < items.len() implies has_key(rows, (#[trigger] items[i]).0) by {
        assert(is_given(items, items[i].0));
    }
    lemma_rows_add_up(rows, items);
    lemma_gifts_are_weights(rows, 0);
    lemma_gifts_are_weights(items, 0);
}

/// Whatever was given has a table of sums, and its rows add up to what was given.
pub proof fn law_every_gift_is_in_the_sum_table(items: Seq<(u64, u64)>)
    requires
        given_in_all(items) <= u64::MAX,
    ensures
        is_sum_table(sum_table(items), items),
        given_in_all(sum_table(items)) == given_in_all(items),
{
    let earlier = |x: (u64, u64), y: (u64, u64)| x.0 < y.0 || (x.0 == y.0 && x.1 < y.1);
    lemma_gifts_are_weights(items, 0);
    let rows = lemma_rows_in_order_exist(items, earlier);
    assert(is_sum_table(rows, items)) by {
        assert forall|i: int| 0 <= i < rows.len() implies is_given(items, (#[trigger] rows[i]).0)
            && rows[i].1 == given(items, rows[i].0) by {
            lemma_gifts_are_weights(items, rows[i].0);
        }
        assert forall|number: u64| #[trigger] is_given(items, number) implies exists|i: int|
            0 <= i < rows.len() && (#[trigger] rows[i]).0 == number by {
            lemma_gifts_are_weights(items, number);
            assert(has_key(rows, number));
        }
        assert forall|i: int, j: int| 0 <= i < j < rows.len() implies (#[trigger] rows[i]).0 < (
        #[trigger] rows[j]).0 by {
            assert(earlier(rows[i], rows[j]));
        }
    }
    law_a_sum_table_adds_up(sum_table(items), items);
}

/// No number is given more than all together.
proof fn lemma_given_is_bounded(items: Seq<(u64, u64)>, number: u64)
    ensures
        0 <= given(items, number) <= given_in_all(items),
    decreases items.len(),
{
    if items.len() > 0 {
        lemma_given_is_bounded(items.drop_last(), number);
    }
}

/// What comes first of a list is given no more than the whole.
pub proof fn lemma_given_grows(items: Seq<(u64, u64)>, n: int)
    requires
        0 <= n <= items.len(),
    ensures
        0 <= given_in_all(items.take(n)) <= given_in_all(items),
    decreases items.len(),
{
    if n == items.len() {
        assert(items.take(n) =~= items);
        if n > 0 {
            lemma_given_grows(items.drop_last(), n - 1);
            assert(items.drop_last().take(n - 1) =~= items.drop_last());
        }
    } else {
        lemma_given_grows(items.drop_last(), n);
        assert(items.drop_last().take(n) =~= items.take(n));
    }
}

/// A number that was given nothing has no sum.
proof fn lemma_not_given(items: Seq<(u64, u64)>, number: u64)
    requires
        !is_given(items, number),
    ensures
        given(items, number) == 0,
    decreases items.len(),
{
    if items.len() > 0 {
        let rest = items.drop_last();
        assert(items[items.len() - 1].0 != number);
        assert(!is_given(rest, number)) by {
            if is_given(rest, number) {
                let i = choose|i: int| 0 <= i < rest.len() && (#[trigger] rest[i]).0 == number;
                assert(items[i].0 == number);
            }
        }
        lemma_not_given(rest, number);
    }
}

/// What one more gift does.
proof fn lemma_one_more_gift(items: Seq<(u64, u64)>, gift: (u64, u64), number: u64)
    ensures
        given(items.push(gift), number) == given(items, number) + (if gift.0 == number {
            gift.1 as int
        } else {
            0
        }),
        is_given(items.push(gift), number) <==> is_given(items, number) || gift.0 == number,
{
    let more = items.push(gift);
    assert(more.drop_last() =~= items);
    if is_given(items, number) {
        let i = choose|i: int| 0 <= i < items.len() && (#[trigger] items[i]).0 == number;
        assert(more[i].0 == number);
    }
    if gift.0 == number {
        assert(more[items.len() as int].0 == number);
    }
    if is_given(more, number) && gift.0 != number {
        let i = choose|i: int| 0 <= i < more.len() && (#[trigger] more[i]).0 == number;
        assert(items[i].0 == number);
    }
}

/// A table with one more gift in it.
fn give(rows: &mut Vec<(u64, u64)>, gift: (u64, u64), Ghost(items): Ghost<Seq<(u64, u64)>>)
    requires
        is_sum_table(old(rows)@, items),
        given_in_all(items) + gift.1 <= u64::MAX,
    ensures
        is_sum_table(final(rows)@, items.push(gift)),
{
    let ghost whole = rows@;
    let ghost more = items.push(gift);
    let mut at: usize = 0;
    while at < rows.len() && rows[at].0 < gift.0
        invariant
            at <= rows@.len(),
            rows@ == whole,
            forall|i: int| 0 <= i < at ==> (#[trigger] rows@[i]).0 < gift.0,
        decreases rows@.len() - at,
    {
        at = at + 1;
    }
    proof {
        lemma_given_is_bounded(items, gift.0);
        assert forall|k: u64| #[trigger] is_given(more, k) <==> is_given(items, k) || k
            == gift.0 by {
            lemma_one_more_gift(items, gift, k);
        }
        assert forall|k: u64| #[trigger] given(more, k) == given(items, k) + (if k == gift.0 {
            gift.1 as int
        } else {
            0
        }) by {
            lemma_one_more_gift(items, gift, k);
        }
    }
    if at < rows.len() && rows[at].0 == gift.0 {
        let sum: u64 = rows[at].1;
        assert(whole[at as int].1 == given(items, gift.0));
        rows.set(at, (gift.0, sum + gift.1));
        proof {
            assert forall|i: int| 0 <= i < rows@.len() implies is_given(
                more,
                (#[trigger] rows@[i]).0,
            ) && rows@[i].1 == given(more, rows@[i].0) by {
                assert(whole[i].1 == given(items, whole[i].0));
                if i < at {
                    assert(whole[i].0 < whole[at as int].0);
                } else if i > at {
                    assert(whole[at as int].0 < whole[i].0);
                }
            }
            assert forall|k: u64| #[trigger] is_given(more, k) implies exists|i: int|
                0 <= i < rows@.len() && (#[trigger] rows@[i]).0 == k by {
                if k == gift.0 {
                    assert(rows@[at as int].0 == k);
                } else {
                    assert(is_given(items, k));
                    let i = choose|i: int| 0 <= i < whole.len() && (#[trigger] whole[i]).0 == k;
                    assert(rows@[i].0 == k);
                }
            }
            assert forall|i: int, j: int| 0 <= i < j < rows@.len() implies (
            #[trigger] rows@[i]).0 < (#[trigger] rows@[j]).0 by {
                assert(whole[i].0 < whole[j].0);
            }
        }
    } else {
        proof {
            assert forall|i: int| at <= i < whole.len() implies gift.0 < (
            #[trigger] whole[i]).0 by {
                if i > at {
                    assert(whole[at as int].0 < whole[i].0);
                }
            }
            assert(!is_given(items, gift.0)) by {
                if is_given(items, gift.0) {
                    let i = choose|i: int|
                        0 <= i < whole.len() && (#[trigger] whole[i]).0 == gift.0;
                    assert(i < at || i >= at);
                }
            }
            lemma_not_given(items, gift.0);
        }
        rows.insert(at, gift);
        proof {
            assert forall|i: int| 0 <= i < rows@.len() implies #[trigger] rows@[i] == (if i < at {
                whole[i]
            } else if i == at {
                gift
            } else {
                whole[i - 1]
            }) by {}
            assert forall|i: int| 0 <= i < rows@.len() implies is_given(
                more,
                (#[trigger] rows@[i]).0,
            ) && rows@[i].1 == given(more, rows@[i].0) by {
                if i < at {
                    assert(whole[i].1 == given(items, whole[i].0));
                } else if i > at {
                    assert(whole[i - 1].1 == given(items, whole[i - 1].0));
                }
            }
            assert forall|k: u64| #[trigger] is_given(more, k) implies exists|i: int|
                0 <= i < rows@.len() && (#[trigger] rows@[i]).0 == k by {
                if k == gift.0 {
                    assert(rows@[at as int].0 == k);
                } else {
                    assert(is_given(items, k));
                    let i = choose|i: int| 0 <= i < whole.len() && (#[trigger] whole[i]).0 == k;
                    if i < at {
                        assert(rows@[i].0 == k);
                    } else {
                        assert(rows@[i + 1].0 == k);
                    }
                }
            }
            assert forall|i: int, j: int| 0 <= i < j < rows@.len() implies (
            #[trigger] rows@[i]).0 < (#[trigger] rows@[j]).0 by {
                if j < at {
                    assert(whole[i].0 < whole[j].0);
                } else if i > at {
                    assert(whole[i - 1].0 < whole[j - 1].0);
                } else if i < at && j > at {
                    assert(whole[i].0 < whole[j - 1].0);
                }
            }
        }
    }
}

/// The numbers that were given something, with what each was given in all.
pub fn sums_by_number(items: &Vec<(u64, u64)>) -> (rows: Vec<(u64, u64)>)
    requires
        given_in_all(items@) <= u64::MAX,
    ensures
        is_sum_table(rows@, items@),
        rows@ == sum_table(items@),
{
    let mut rows: Vec<(u64, u64)> = Vec::new();
    let mut i: usize = 0;
    assert(items@.take(0) =~= Seq::empty());
    while i < items.len()
        invariant
            i <= items@.len(),
            given_in_all(items@) <= u64::MAX,
            is_sum_table(rows@, items@.take(i as int)),
        decreases items@.len() - i,
    {
        proof {
            assert(items@.take(i + 1) =~= items@.take(i as int).push(items@[i as int]));
            assert(items@.take(i + 1).drop_last() =~= items@.take(i as int));
            lemma_given_grows(items@, i + 1);
        }
        give(&mut rows, items[i], Ghost(items@.take(i as int)));
        i = i + 1;
    }
    proof {
        assert(items@.take(items@.len() as int) =~= items@);
        law_a_sum_table_is_unique(rows@, sum_table(items@), items@);
    }
    rows
}

/// Charges add up one by one: a charge counts for its own name and for no other.
pub proof fn law_charges_add_up(a: Seq<Charge>, b: Seq<Charge>, one: Charge, key: Key)
    ensures
        charged(a + b, key) == charged(a, key) + charged(b, key),
        charged(seq![one], key) == if one.0 == key {
            one.1 as int
        } else {
            0
        },
    decreases b.len(),
{
    assert(seq![one].drop_last() =~= Seq::empty());
    assert(charged(seq![one].drop_last(), key) == 0);
    if b.len() == 0 {
        assert(a + b =~= a);
    } else {
        law_charges_add_up(a, b.drop_last(), one, key);
        assert((a + b).drop_last() =~= a + b.drop_last());
    }
}

/// What a number is given adds up gift by gift, and no other number has a part in it.
pub proof fn law_gifts_add_up(a: Seq<(u64, u64)>, b: Seq<(u64, u64)>, one: (u64, u64), number: u64)
    ensures
        given(a + b, number) == given(a, number) + given(b, number),
        given(seq![one], number) == if one.0 == number {
            one.1 as int
        } else {
            0
        },
    decreases b.len(),
{
    assert(seq![one].drop_last() =~= Seq::empty());
    assert(given(seq![one].drop_last(), number) == 0);
    if b.len() == 0 {
        assert(a + b =~= a);
    } else {
        law_gifts_add_up(a, b.drop_last(), one, number);
        assert((a + b).drop_last() =~= a + b.drop_last());
    }
}

/// A ranking begins with what was charged most; names that were charged alike stand in the
/// order of their texts.
pub proof fn law_most_comes_first(rows: Seq<Charge>, items: Seq<Charge>, i: int, j: int)
    requires
        is_name_ranking(rows, items),
        0 <= i < j < rows.len(),
    ensures
        rows[i].1 >= rows[j].1,
        rows[i].0 != rows[j].0,
        rows[i].1 == rows[j].1 ==> !text_before(rows[j].0.0, rows[i].0.0),
        rows[i].1 == rows[j].1 && rows[i].0.0 == rows[j].0.0 ==> !text_before(
            rows[j].0.1,
            rows[i].0.1,
        ),
{
    assert(row_before(rows[i], rows[j]));
    let a = rows[i].0;
    let b = rows[j].0;
    lemma_before_is_irreflexive(a.0);
    lemma_before_is_irreflexive(a.1);
    if text_before(a.0, b.0) && text_before(b.0, a.0) {
        lemma_before_is_transitive(a.0, b.0, a.0);
    }
    if text_before(a.1, b.1) && text_before(b.1, a.1) {
        lemma_before_is_transitive(a.1, b.1, a.1);
    }
    if a == b {
        assert(rows[i].1 == charged(items, a));
        assert(rows[j].1 == charged(items, a));
    }
}

} // verus!
