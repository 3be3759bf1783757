//! What keys were given in all: the keys can be listed and put in order, and the sums
//! of the keys add up to the sum of the gifts.

use vstd::prelude::*;

verus! {

/// What a key was given in all.
pub open spec fn weight<K>(items: Seq<(K, u64)>, key: K) -> int
    decreases items.len(),
{
    if items.len() == 0 {
        0
    } else {
        let rest = weight(items.drop_last(), key);
        if items.last().0 == key {
            rest + items.last().1
        } else {
            rest
        }
    }
}

/// What all keys were given together.
pub open spec fn total<K>(items: Seq<(K, u64)>) -> int
    decreases items.len(),
{
    if items.len() == 0 {
        0
    } else {
        total(items.drop_last()) + items.last().1
    }
}

/// Whether a key was given anything.
pub open spec fn has_key<K>(items: Seq<(K, u64)>, key: K) -> bool {
    exists|i: int| 0 <= i < items.len() && (#[trigger] items[i]).0 == key
}

/// The keys of rows.
pub open spec fn keys_of<K>(rows: Seq<(K, u64)>) -> Seq<K> {
    rows.map_values(|row: (K, u64)| row.0)
}

/// What some keys were given together.
spec fn weights_of<K>(keys: Seq<K>, items: Seq<(K, u64)>) -> int
    decreases keys.len(),
{
    if keys.len() == 0 {
        0
    } else {
        weights_of(keys.drop_last(), items) + weight(items, keys.last())
    }
}

/// Keys were given nothing where nothing was given.
proof fn lemma_no_weights<K>(keys: Seq<K>, items: Seq<(K, u64)>)
    requires
        items.len() == 0,
    ensures
        weights_of(keys, items) == 0,
    decreases keys.len(),
{
    if keys.len() > 0 {
        lemma_no_weights(keys.drop_last(), items);
    }
}

/// One more gift counts once, for the key that it is for.
proof fn lemma_one_more_weight<K>(keys: Seq<K>, items: Seq<(K, u64)>, gift: (K, u64))
    requires
        keys.no_duplicates(),
    ensures
        weights_of(keys, items.push(gift)) == weights_of(keys, items) + (if keys.contains(gift.0) {
            gift.1 as int
        } else {
            0
        }),
    decreases keys.len(),
{
    if keys.len() > 0 {
        let rest = keys.drop_last();
        lemma_one_more_weight(rest, items, gift);
        assert(items.push(gift).drop_last() =~= items);
        if keys.last() == gift.0 {
            assert(keys[keys.len() - 1] == gift.0);
            if rest.contains(gift.0) {
                let i = choose|i: int| 0 <= i < rest.len() && rest[i] == gift.0;
                assert(keys[i] == keys[keys.len() - 1]);
            }
        } else if keys.contains(gift.0) {
            let i = choose|i: int| 0 <= i < keys.len() && keys[i] == gift.0;
            assert(rest[i] == gift.0);
        } else if rest.contains(gift.0) {
            let i = choose|i: int| 0 <= i < rest.len() && rest[i] == gift.0;
            assert(keys[i] == gift.0);
        }
    }
}

/// What all keys were given is what was given.
proof fn lemma_weights_add_up<K>(keys: Seq<K>, items: Seq<(K, u64)>)
    requires
        keys.no_duplicates(),
        forall|i: int| 0 <= i < items.len() ==> keys.contains((#[trigger] items[i]).0),
    ensures
        weights_of(keys, items) == total(items),
    decreases items.len(),
{
    if items.len() == 0 {
        lemma_no_weights(keys, items);
    } else {
        let rest = items.drop_last();
        assert forall|i: int| 0 <= i < rest.len() implies keys.contains((#[trigger] rest[i]).0) by {
            assert(items[i] == rest[i]);
        }
        lemma_weights_add_up(keys, rest);
        lemma_one_more_weight(keys, rest, items.last());
        assert(rest.push(items.last()) =~= items);
        assert(keys.contains(items[items.len() - 1].0));
    }
}

/// Rows that say what their keys were given add up to what those keys were given.
proof fn lemma_rows_are_weights<K>(rows: Seq<(K, u64)>, items: Seq<(K, u64)>)
    requires
        forall|i: int| 0 <= i < rows.len() ==> (#[trigger] rows[i]).1 == weight(items, rows[i].0),
    ensures
        total(rows) == weights_of(keys_of(rows), items),
    decreases rows.len(),
{
    if rows.len() > 0 {
        let rest = rows.drop_last();
        assert forall|i: int| 0 <= i < rest.len() implies (#[trigger] rest[i]).1 == weight(
            items,
            rest[i].0,
        ) by {
            assert(rows[i] == rest[i]);
        }
        lemma_rows_are_weights(rest, items);
        assert(keys_of(rows).drop_last() =~= keys_of(rest));
        assert(rows[rows.len() - 1].1 == weight(items, rows[rows.len() - 1].0));
    }
}

/// Rows that hold every key once, with what it was given, add up to what was given.
pub proof fn lemma_rows_add_up<K>(rows: Seq<(K, u64)>, items: Seq<(K, u64)>)
    requires
        keys_of(rows).no_duplicates(),
        forall|i: int| 0 <= i < rows.len() ==> (#[trigger] rows[i]).1 == weight(items, rows[i].0),
        forall|i: int| 0 <= i < items.len() ==> has_key(rows, (#[trigger] items[i]).0),
    ensures
        total(rows) == total(items),
{
    assert forall|i: int| 0 <= i < items.len() implies keys_of(rows).contains(
        (#[trigger] items[i]).0,
    ) by {
        let k = choose|k: int| 0 <= k < rows.len() && (#[trigger] rows[k]).0 == items[i].0;
        assert(keys_of(rows)[k] == items[i].0);
    }
    lemma_rows_are_weights(rows, items);
    lemma_weights_add_up(keys_of(rows), items);
}

/// No key is given more than all together.
pub proof fn lemma_weight_is_bounded<K>(items: Seq<(K, u64)>, key: K)
    ensures
        0 <= weight(items, key) <= total(items),
    decreases items.len(),
{
    if items.len() > 0 {
        lemma_weight_is_bounded(items.drop_last(), key);
    }
}

/// The keys that were given something can be listed, each once.
proof fn lemma_keys_can_be_listed<K>(items: Seq<(K, u64)>) -> (keys: Seq<K>)
    ensures
        keys.no_duplicates(),
        forall|key: K| #[trigger] keys.contains(key) <==> has_key(items, key),
    decreases items.len(),
{
    if items.len() == 0 {
        Seq::empty()
    } else {
        let rest = items.drop_last();
        let key = items.last().0;
        let held = lemma_keys_can_be_listed(rest);
        let out = if held.contains(key) {
            held
        } else {
            held.push(key)
        };
        assert forall|k: K| #[trigger] out.contains(k) <==> has_key(items, k) by {
            assert(held.contains(k) <==> has_key(rest, k));
            if out.contains(k) {
                if held.contains(k) {
                    let i = choose|i: int| 0 <= i < rest.len() && (#[trigger] rest[i]).0 == k;
                    assert(items[i].0 == k);
                } else {
                    let i = choose|i: int| 0 <= i < out.len() && out[i] == k;
                    if i < held.len() {
                        assert(held[i] == k);
                    }
                    assert(items[items.len() - 1].0 == k);
                }
            }
            if has_key(items, k) {
                let i = choose|i: int| 0 <= i < items.len() && (#[trigger] items[i]).0 == k;
                if i < rest.len() {
                    assert(rest[i].0 == k);
                    let m = choose|m: int| 0 <= m < held.len() && held[m] == k;
                    assert(out[m] == k);
                } else if held.contains(key) {
                    assert(out.contains(k));
                } else {
                    assert(out[held.len() as int] == k);
                }
            }
        }
        assert(out.no_duplicates()) by {
            if !held.contains(key) {
                assert forall|i: int, j: int| 0 <= i < out.len() && 0 <= j < out.len() && i
                    != j implies out[i] != out[j] by {
                    if i == held.len() {
                        assert(held[j] == out[j]);
                    } else if j == held.len() {
                        assert(held[i] == out[i]);
                    } else {
                        assert(held[i] == out[i] && held[j] == out[j]);
                    }
                }
            }
        }
        out
    }
}

/// Whether of two different things one comes first, and only one.
pub open spec fn is_strict_order<T>(earlier: spec_fn(T, T) -> bool) -> bool {
    &&& forall|x: T, y: T| #[trigger] earlier(x, y) ==> !earlier(y, x)
    &&& forall|x: T, y: T| x != y ==> #[trigger] earlier(x, y) || earlier(y, x)
    &&& forall|x: T, y: T, z: T|
        #[trigger] earlier(x, y) && #[trigger] earlier(y, z) ==> earlier(x, z)
}

/// Whether things stand in order.
pub open spec fn stands_in_order<T>(list: Seq<T>, earlier: spec_fn(T, T) -> bool) -> bool {
    forall|i: int, j: int| 0 <= i < j < list.len() ==> earlier(#[trigger] list[i], #[trigger] list[j])
}

/// A new thing belongs somewhere among things that stand in order.
proof fn lemma_a_place_in_order<T>(held: Seq<T>, x: T, earlier: spec_fn(T, T) -> bool) -> (p: int)
    requires
        is_strict_order(earlier),
        stands_in_order(held, earlier),
        !held.contains(x),
    ensures
        0 <= p <= held.len(),
        forall|i: int| 0 <= i < p ==> earlier(#[trigger] held[i], x),
        forall|i: int| p <= i < held.len() ==> earlier(x, #[trigger] held[i]),
    decreases held.len(),
{
    if held.len() == 0 {
        0
    } else {
        let n = held.len() - 1;
        assert(held.contains(held[n]));
        if earlier(held[n], x) {
            assert forall|i: int| 0 <= i < held.len() implies earlier(#[trigger] held[i], x) by {
                if i < n {
                    assert(earlier(held[i], held[n]));
                }
            }
            held.len() as int
        } else {
            assert(earlier(x, held[n]));
            let rest = held.drop_last();
            assert(forall|i: int| 0 <= i < rest.len() ==> rest[i] == held[i]);
            if rest.contains(x) {
                let i = choose|i: int| 0 <= i < rest.len() && rest[i] == x;
                assert(held[i] == x);
            }
            let p = lemma_a_place_in_order(rest, x, earlier);
            assert forall|i: int| 0 <= i < p implies earlier(#[trigger] held[i], x) by {
                assert(rest[i] == held[i]);
            }
            assert forall|i: int| p <= i < held.len() implies earlier(x, #[trigger] held[i]) by {
                if i < n {
                    assert(rest[i] == held[i]);
                }
            }
            p
        }
    }
}

/// Different things can be put in order.
proof fn lemma_can_be_put_in_order<T>(list: Seq<T>, earlier: spec_fn(T, T) -> bool) -> (out: Seq<T>)
    requires
        is_strict_order(earlier),
        list.no_duplicates(),
    ensures
        stands_in_order(out, earlier),
        forall|x: T| #[trigger] out.contains(x) <==> list.contains(x),
    decreases list.len(),
{
    if list.len() == 0 {
        list
    } else {
        let rest = list.drop_last();
        let x = list.last();
        assert(!rest.contains(x)) by {
            if rest.contains(x) {
                let i = choose|i: int| 0 <= i < rest.len() && rest[i] == x;
                assert(list[i] == list[list.len() - 1]);
            }
        }
        let held = lemma_can_be_put_in_order(rest, earlier);
        let p = lemma_a_place_in_order(held, x, earlier);
        let out = held.insert(p, x);
        assert forall|i: int| 0 <= i < out.len() implies #[trigger] out[i] == (if i < p {
            held[i]
        } else if i == p {
            x
        } else {
            held[i - 1]
        }) by {}
        assert forall|y: T| #[trigger] out.contains(y) <==> list.contains(y) by {
            assert(held.contains(y) <==> rest.contains(y));
            if out.contains(y) {
                let i = choose|i: int| 0 <= i < out.len() && out[i] == y;
                if i == p {
                    assert(list[list.len() - 1] == y);
                } else {
                    assert(held.contains(y)) by {
                        assert(held[if i < p {
                            i
                        } else {
                            i - 1
                        }] == y);
                    }
                    let k = choose|k: int| 0 <= k < rest.len() && rest[k] == y;
                    assert(list[k] == y);
                }
            }
            if list.contains(y) {
                let k = choose|k: int| 0 <= k < list.len() && list[k] == y;
                if k < rest.len() {
                    assert(rest[k] == y);
                    assert(held.contains(y));
                    let i = choose|i: int| 0 <= i < held.len() && held[i] == y;
                    if i < p {
                        assert(out[i] == y);
                    } else {
                        assert(out[i + 1] == y);
                    }
                } else {
                    assert(out[p] == y);
                }
            }
        }
        out
    }
}

/// The keys that were given something stand in order somewhere, each once, with what it
/// was given in all.
pub proof fn lemma_rows_in_order_exist<K>(
    items: Seq<(K, u64)>,
    earlier: spec_fn((K, u64), (K, u64)) -> bool,
) -> (rows: Seq<(K, u64)>)
    requires
        is_strict_order(earlier),
        total(items) <= u64::MAX,
    ensures
        stands_in_order(rows, earlier),
        forall|i: int|
            0 <= i < rows.len() ==> has_key(items, (#[trigger] rows[i]).0) && rows[i].1 == weight(
                items,
                rows[i].0,
            ),
        forall|key: K| #[trigger] has_key(items, key) ==> has_key(rows, key),
{
    let keys = lemma_keys_can_be_listed(items);
    let list = keys.map_values(|key: K| (key, weight(items, key) as u64));
    assert(list.no_duplicates()) by {
        assert forall|i: int, j: int| 0 <= i < list.len() && 0 <= j < list.len() && i
            != j implies list[i] != list[j] by {
            assert(keys[i] != keys[j]);
        }
    }
    let rows = lemma_can_be_put_in_order(list, earlier);
    assert forall|i: int| 0 <= i < rows.len() implies has_key(items, (#[trigger] rows[i]).0)
        && rows[i].1 == weight(items, rows[i].0) by {
        assert(rows.contains(rows[i]));
        assert(list.contains(rows[i]));
        let k = choose|k: int| 0 <= k < list.len() && list[k] == rows[i];
        assert(keys.contains(keys[k]));
        lemma_weight_is_bounded(items, keys[k]);
    }
    assert forall|key: K| #[trigger] has_key(items, key) implies has_key(rows, key) by {
        assert(keys.contains(key));
        let k = choose|k: int| 0 <= k < keys.len() && keys[k] == key;
        assert(list[k].0 == key);
        assert(list.contains(list[k]));
        assert(rows.contains(list[k]));
        let i = choose|i: int| 0 <= i < rows.len() && rows[i] == list[k];
        assert(rows[i].0 == key);
    }
    rows
}

} // verus!
