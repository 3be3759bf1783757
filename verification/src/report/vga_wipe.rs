//! What wiped the direct VGA write token.

use vstd::prelude::*;

use crate::json::{array, no_fields, null, object, put, put_number, put_text, rows};
#[allow(unused_imports)]
use crate::json::{json_of, models, JsonModel};
use crate::text::prefixed_hex_text;
#[allow(unused_imports)]
use crate::text::prefixed_hex;
#[allow(unused_imports)]
use vstd::arithmetic::power2::pow2;
use vstd::arithmetic::power2::{lemma_pow2_strictly_increases, lemma2_to64};
#[allow(unused_imports)]
use vstd::bits::lemma_u64_shl_is_mul;
#[allow(unused_imports)]
use crate::json::{number_under, text_under, under};

verus! {

/// One port access that wiped the token, and how often it did.
#[derive(Clone, Copy, Debug, Default)]
pub struct VgaWipeRow {
    pub port: u16,
    pub selector: u8,
    pub value: u8,
    pub count: u64,
}

/// What [`vga_wipe_row_json`] gives.
pub open spec fn vga_wipe_row_model(row: VgaWipeRow) -> JsonModel {
    JsonModel::Obj(
        map![
            "port"@ => JsonModel::Str(prefixed_hex(row.port as nat, 3, true)),
            "selector"@ => JsonModel::Str(prefixed_hex(row.selector as nat, 2, true)),
            "value"@ => JsonModel::Str(prefixed_hex(row.value as nat, 2, true)),
            "count"@ => JsonModel::Num(row.count as int),
        ],
    )
}

/// One wiping access as an object.
fn vga_wipe_row_json(row: &VgaWipeRow) -> (value: serde_json::Value)
    ensures
        json_of(value) == vga_wipe_row_model(*row),
{
    let mut fields = no_fields();
    put_text(&mut fields, "port", prefixed_hex_text(row.port as u64, 3, true).as_str());
    put_text(&mut fields, "selector", prefixed_hex_text(row.selector as u64, 2, true).as_str());
    put_text(&mut fields, "value", prefixed_hex_text(row.value as u64, 2, true).as_str());
    put_number(&mut fields, "count", row.count);
    object(fields)
}

/// The token-wipe census.
#[derive(Debug, Default)]
pub struct VgaWipeCensusSnapshot {
    pub events: u64,
    pub key_overflow: u64,
    pub applies: u64,
    pub applies_same_token: u64,
    pub rows: Vec<VgaWipeRow>,
    /// Wipes by the token before and the token after.
    pub transitions: Vec<Vec<u64>>,
    /// Wipes by the instructions since the last one: bucket `b` starts at two to the power `b`.
    pub gap_buckets: Vec<u64>,
}

/// One token change as an object.
pub open spec fn transition_model(before: int, after: int, count: u64) -> JsonModel {
    JsonModel::Obj(
        map![
            "before"@ => JsonModel::Num(before),
            "after"@ => JsonModel::Num(after),
            "count"@ => JsonModel::Num(count as int),
        ],
    )
}

/// The changes away from the token `before` that happened at all.
pub open spec fn transitions_from(before: int, counts: Seq<u64>) -> Seq<JsonModel>
    decreases counts.len(),
{
    if counts.len() == 0 {
        Seq::empty()
    } else {
        let rest = transitions_from(before, counts.drop_last());
        if counts.last() != 0 {
            rest.push(transition_model(before, counts.len() - 1, counts.last()))
        } else {
            rest
        }
    }
}

/// The token changes that happened at all, by the token before.
pub open spec fn transitions_model(matrix: Seq<Vec<u64>>) -> Seq<JsonModel>
    decreases matrix.len(),
{
    if matrix.len() == 0 {
        Seq::empty()
    } else {
        transitions_model(matrix.drop_last()) + transitions_from(
            matrix.len() - 1,
            matrix.last()@,
        )
    }
}

/// One gap bucket as an object.
pub open spec fn gap_bucket_model(bucket: nat, count: u64) -> JsonModel {
    JsonModel::Obj(
        map![
            "min_instructions"@ => JsonModel::Num(pow2(bucket) as int),
            "count"@ => JsonModel::Num(count as int),
        ],
    )
}

/// The gap buckets that hold anything.
pub open spec fn gap_buckets_model(counts: Seq<u64>) -> Seq<JsonModel>
    decreases counts.len(),
{
    if counts.len() == 0 {
        Seq::empty()
    } else {
        let rest = gap_buckets_model(counts.drop_last());
        if counts.last() != 0 {
            rest.push(gap_bucket_model((counts.len() - 1) as nat, counts.last()))
        } else {
            rest
        }
    }
}

/// Appends the changes away from `before` that happened at all.
fn push_transitions_from(values: &mut Vec<serde_json::Value>, before: usize, counts: &Vec<u64>)
    ensures
        models(final(values)@) == models(old(values)@) + transitions_from(before as int, counts@),
{
    let ghost start = models(values@);
    let mut after: usize = 0;
    proof {
        assert(counts@.take(0) =~= Seq::empty());
        assert(models(values@) =~= start + transitions_from(before as int, counts@.take(0)));
    }
    while after < counts.len()
        invariant
            after <= counts@.len(),
            models(values@) == start + transitions_from(before as int, counts@.take(after as int)),
        decreases counts@.len() - after,
    {
        let count: u64 = counts[after];
        let ghost here = models(values@);
        proof {
            assert(counts@.take(after + 1).drop_last() =~= counts@.take(after as int));
        }
        if count != 0 {
            let mut fields = no_fields();
            put_number(&mut fields, "before", before as u64);
            put_number(&mut fields, "after", after as u64);
            put_number(&mut fields, "count", count);
            values.push(object(fields));
            proof {
                assert(models(values@) =~= here.push(
                    transition_model(before as int, after as int, count),
                ));
                assert(models(values@) =~= start + transitions_from(
                    before as int,
                    counts@.take(after + 1),
                ));
            }
        }
        after = after + 1;
    }
    assert(counts@.take(counts@.len() as int) =~= counts@);
}

/// The token changes that happened at all, as an array.
fn transitions_json(matrix: &Vec<Vec<u64>>) -> (value: serde_json::Value)
    ensures
        json_of(value) == JsonModel::Arr(transitions_model(matrix@)),
{
    let mut values: Vec<serde_json::Value> = Vec::new();
    let mut before: usize = 0;
    proof {
        assert(matrix@.take(0) =~= Seq::empty());
        assert(models(values@) =~= transitions_model(matrix@.take(0)));
    }
    while before < matrix.len()
        invariant
            before <= matrix@.len(),
            models(values@) == transitions_model(matrix@.take(before as int)),
        decreases matrix@.len() - before,
    {
        push_transitions_from(&mut values, before, &matrix[before]);
        proof {
            assert(matrix@.take(before + 1).drop_last() =~= matrix@.take(before as int));
        }
        before = before + 1;
    }
    assert(matrix@.take(matrix@.len() as int) =~= matrix@);
    array(values)
}

/// Two to the power `bucket`.
fn bucket_floor(bucket: usize) -> (n: u64)
    requires
        bucket < 64,
    ensures
        n == pow2(bucket as nat),
{
    proof {
        lemma2_to64();
        lemma_pow2_strictly_increases(bucket as nat, 64);
        assert(1 * pow2(bucket as nat) <= u64::MAX);
        lemma_u64_shl_is_mul(1, bucket as u64);
    }
    1u64 << (bucket as u64)
}

/// The gap buckets that hold anything, as an array.
fn gap_buckets_json(counts: &Vec<u64>) -> (value: serde_json::Value)
    requires
        counts@.len() <= 64,
    ensures
        json_of(value) == JsonModel::Arr(gap_buckets_model(counts@)),
{
    let mut values: Vec<serde_json::Value> = Vec::new();
    let mut bucket: usize = 0;
    proof {
        assert(counts@.take(0) =~= Seq::empty());
        assert(models(values@) =~= gap_buckets_model(counts@.take(0)));
    }
    while bucket < counts.len()
        invariant
            bucket <= counts@.len() <= 64,
            models(values@) == gap_buckets_model(counts@.take(bucket as int)),
        decreases counts@.len() - bucket,
    {
        let count: u64 = counts[bucket];
        let ghost here = models(values@);
        proof {
            assert(counts@.take(bucket + 1).drop_last() =~= counts@.take(bucket as int));
        }
        if count != 0 {
            let mut fields = no_fields();
            put_number(&mut fields, "min_instructions", bucket_floor(bucket));
            put_number(&mut fields, "count", count);
            values.push(object(fields));
            proof {
                assert(models(values@) =~= here.push(gap_bucket_model(bucket as nat, count)));
            }
        }
        bucket = bucket + 1;
    }
    assert(counts@.take(counts@.len() as int) =~= counts@);
    array(values)
}

/// What [`vga_wipe_census_json`] gives: `null` where no census was kept, and
/// changes and gaps as sparse lists.
pub open spec fn vga_wipe_census_model(snapshot: Option<VgaWipeCensusSnapshot>) -> JsonModel {
    match snapshot {
        None => JsonModel::Null,
        Some(s) => JsonModel::Obj(
            map![
                "events"@ => JsonModel::Num(s.events as int),
                "key_overflow"@ => JsonModel::Num(s.key_overflow as int),
                "applies"@ => JsonModel::Num(s.applies as int),
                "applies_same_token"@ => JsonModel::Num(s.applies_same_token as int),
                "rows"@ => JsonModel::Arr(
                    s.rows@.map_values(|row: VgaWipeRow| vga_wipe_row_model(row)),
                ),
                "transitions"@ => JsonModel::Arr(transitions_model(s.transitions@)),
                "gap_buckets"@ => JsonModel::Arr(gap_buckets_model(s.gap_buckets@)),
            ],
        ),
    }
}

/// The token-wipe census, or `null` where none was kept.
pub fn vga_wipe_census_json(snapshot: &Option<VgaWipeCensusSnapshot>) -> (value: serde_json::Value)
    requires
        snapshot matches Some(s) ==> s.gap_buckets@.len() <= 64,
    ensures
        json_of(value) == vga_wipe_census_model(*snapshot),
{
    match snapshot {
        None => null(),
        Some(s) => {
            let mut fields = no_fields();
            put_number(&mut fields, "events", s.events);
            put_number(&mut fields, "key_overflow", s.key_overflow);
            put_number(&mut fields, "applies", s.applies);
            put_number(&mut fields, "applies_same_token", s.applies_same_token);
            put(
                &mut fields,
                "rows",
                rows(&s.rows, vga_wipe_row_json, Ghost(|row: VgaWipeRow| vga_wipe_row_model(row))),
            );
            put(&mut fields, "transitions", transitions_json(&s.transitions));
            put(&mut fields, "gap_buckets", gap_buckets_json(&s.gap_buckets));
            object(fields)
        },
    }
}

// ---------------------------------------------------------------------------
// By key
// ---------------------------------------------------------------------------

/// Looked up by its key, every entry of the object is the figure that the key names.
pub proof fn law_vga_wipe_row_by_key(row: VgaWipeRow)
    ensures
        text_under(vga_wipe_row_model(row), "port"@)
            == Some(prefixed_hex(row.port as nat, 3, true)),
        text_under(vga_wipe_row_model(row), "selector"@)
            == Some(prefixed_hex(row.selector as nat, 2, true)),
        text_under(vga_wipe_row_model(row), "value"@)
            == Some(prefixed_hex(row.value as nat, 2, true)),
        number_under(vga_wipe_row_model(row), "count"@) == Some(row.count as int),
{
    reveal_strlit("port");
    assert("port"@.len() == 4 && "port"@[0] == 'p');
    reveal_strlit("selector");
    assert("selector"@.len() == 8 && "selector"@[0] == 's');
    reveal_strlit("value");
    assert("value"@.len() == 5 && "value"@[0] == 'v');
    reveal_strlit("count");
    assert("count"@.len() == 5 && "count"@[0] == 'c');
}

/// Looked up by its key, every entry of the object is the figure that the key names.
pub proof fn law_transition_by_key(before: int, after: int, count: u64)
    ensures
        number_under(transition_model(before, after, count), "before"@) == Some(before),
        number_under(transition_model(before, after, count), "after"@) == Some(after),
        number_under(transition_model(before, after, count), "count"@) == Some(count as int),
{
    reveal_strlit("before");
    assert("before"@.len() == 6 && "before"@[0] == 'b');
    reveal_strlit("after");
    assert("after"@.len() == 5 && "after"@[0] == 'a');
    reveal_strlit("count");
    assert("count"@.len() == 5 && "count"@[0] == 'c');
}

/// Looked up by its key, every entry of the object is the figure that the key names.
pub proof fn law_gap_bucket_by_key(bucket: nat, count: u64)
    ensures
        number_under(gap_bucket_model(bucket, count), "min_instructions"@)
            == Some(pow2(bucket) as int),
        number_under(gap_bucket_model(bucket, count), "count"@) == Some(count as int),
{
    reveal_strlit("min_instructions");
    assert("min_instructions"@.len() == 16);
    reveal_strlit("count");
    assert("count"@.len() == 5);
}

/// Looked up by its key, every entry of the object is the figure that the key names.
pub proof fn law_vga_wipe_census_by_key(s: VgaWipeCensusSnapshot)
    ensures
        number_under(vga_wipe_census_model(Some(s)), "events"@) == Some(s.events as int),
        number_under(vga_wipe_census_model(Some(s)), "key_overflow"@)
            == Some(s.key_overflow as int),
        number_under(vga_wipe_census_model(Some(s)), "applies"@) == Some(s.applies as int),
        number_under(vga_wipe_census_model(Some(s)), "applies_same_token"@)
            == Some(s.applies_same_token as int),
        under(vga_wipe_census_model(Some(s)), "rows"@)
            == Some(JsonModel::Arr( s.rows@.map_values(|row: VgaWipeRow| vga_wipe_row_model(row)), )),
        under(vga_wipe_census_model(Some(s)), "transitions"@)
            == Some(JsonModel::Arr(transitions_model(s.transitions@))),
        under(vga_wipe_census_model(Some(s)), "gap_buckets"@)
            == Some(JsonModel::Arr(gap_buckets_model(s.gap_buckets@))),
{
    reveal_strlit("events");
    assert("events"@.len() == 6 && "events"@[0] == 'e');
    reveal_strlit("key_overflow");
    assert("key_overflow"@.len() == 12 && "key_overflow"@[0] == 'k');
    reveal_strlit("applies");
    assert("applies"@.len() == 7 && "applies"@[0] == 'a');
    reveal_strlit("applies_same_token");
    assert("applies_same_token"@.len() == 18 && "applies_same_token"@[0] == 'a');
    reveal_strlit("rows");
    assert("rows"@.len() == 4 && "rows"@[0] == 'r');
    reveal_strlit("transitions");
    assert("transitions"@.len() == 11 && "transitions"@[0] == 't');
    reveal_strlit("gap_buckets");
    assert("gap_buckets"@.len() == 11 && "gap_buckets"@[0] == 'g');
}

/// Every token change that happened is listed once with its two tokens and its count,
/// and one that did not is not.
pub proof fn law_changes_are_listed(before: int, counts: Seq<u64>, after: int)
    requires
        0 <= after < counts.len(),
    ensures
        counts[after] != 0 ==> transitions_from(before, counts).contains(
            transition_model(before, after, counts[after]),
        ),
        transitions_from(before, counts).len() == counts.filter(|n: u64| n != 0).len(),
    decreases counts.len(),
{
    reveal(Seq::filter);
    let rest = counts.drop_last();
    let listed = transitions_from(before, rest);
    let all = transitions_from(before, counts);
    if rest.len() > 0 {
        if after < rest.len() {
            law_changes_are_listed(before, rest, after);
            assert(rest[after] == counts[after]);
            if counts[after] != 0 {
                let k = choose|k: int|
                    0 <= k < listed.len() && listed[k] == transition_model(
                        before,
                        after,
                        counts[after],
                    );
                assert(all[k] == listed[k]);
            }
        } else {
            law_changes_are_listed(before, rest, 0);
        }
    } else {
        assert(listed.len() == 0);
        assert(rest.filter(|n: u64| n != 0).len() == 0);
    }
    if after == counts.len() - 1 && counts[after] != 0 {
        assert(all[all.len() - 1] == transition_model(before, after, counts[after]));
    }
}

} // verus!
