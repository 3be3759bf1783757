//! Building report trees.
//!
//! A report is a `serde_json::Value`. Contracts speak of what a value holds
//! through [`json_of`], whose result is a [`JsonModel`]; objects are built key by
//! key in a `serde_json::Map`, whose contents are [`fields_of`].

use vstd::prelude::*;

verus! {

/// What a JSON value holds.
pub enum JsonModel {
    /// `null`.
    Null,
    /// `true` or `false`.
    Bool(bool),
    /// A whole number.
    Num(int),
    /// Any other number, by the bits of its binary64 value.
    Real(u64),
    /// A string.
    Str(Seq<char>),
    /// An array.
    Arr(Seq<JsonModel>),
    /// An object.
    Obj(Map<Seq<char>, JsonModel>),
}

/// `serde_json::Value`, the tree that a report is built as.
#[verifier::external_type_specification]
#[verifier::external_body]
pub struct ExValue(serde_json::Value);

/// `serde_json::Map`, the fields of an object.
#[verifier::external_type_specification]
#[verifier::external_body]
#[verifier::reject_recursive_types(K)]
#[verifier::reject_recursive_types(V)]
pub struct ExJsonMap<K, V>(serde_json::Map<K, V>);

/// What a `serde_json::Value` holds.
pub uninterp spec fn json_of(value: serde_json::Value) -> JsonModel;

/// What a `serde_json::Map` holds: its keys, each with what its value holds.
pub uninterp spec fn fields_of(
    fields: serde_json::Map<String, serde_json::Value>,
) -> Map<Seq<char>, JsonModel>;

/// No fields at all.
pub open spec fn empty_fields() -> Map<Seq<char>, JsonModel> {
    Map::empty()
}

/// What the values of an array hold.
pub open spec fn models(values: Seq<serde_json::Value>) -> Seq<JsonModel> {
    values.map_values(|value: serde_json::Value| json_of(value))
}

/// `serde_json::Value::Null`.
#[verifier::external_body]
pub(crate) fn null() -> (value: serde_json::Value)
    ensures
        json_of(value) == JsonModel::Null,
{
    serde_json::Value::Null
}

/// `serde_json::Value::Bool`.
#[verifier::external_body]
pub(crate) fn boolean(flag: bool) -> (value: serde_json::Value)
    ensures
        json_of(value) == JsonModel::Bool(flag),
{
    serde_json::Value::Bool(flag)
}

/// `serde_json::Value::from` on a `u64`: the number itself.
#[verifier::external_body]
pub(crate) fn number(n: u64) -> (value: serde_json::Value)
    ensures
        json_of(value) == JsonModel::Num(n as int),
{
    serde_json::Value::from(n)
}

/// `serde_json::Value::String` on the text.
#[verifier::external_body]
pub(crate) fn text(s: &str) -> (value: serde_json::Value)
    ensures
        json_of(value) == JsonModel::Str(s@),
{
    serde_json::Value::String(s.to_string())
}

/// `serde_json::Value::Array`: the values in order.
#[verifier::external_body]
pub(crate) fn array(values: Vec<serde_json::Value>) -> (value: serde_json::Value)
    ensures
        json_of(value) == JsonModel::Arr(models(values@)),
{
    serde_json::Value::Array(values)
}

/// `serde_json::Value::Object` on the fields.
#[verifier::external_body]
pub(crate) fn object(fields: serde_json::Map<String, serde_json::Value>) -> (value: serde_json::Value)
    ensures
        json_of(value) == JsonModel::Obj(fields_of(fields)),
{
    serde_json::Value::Object(fields)
}

/// `serde_json::Map::new`: no fields.
#[verifier::external_body]
pub(crate) fn no_fields() -> (fields: serde_json::Map<String, serde_json::Value>)
    ensures
        fields_of(fields) == empty_fields(),
{
    serde_json::Map::new()
}

/// `serde_json::Map::insert`: the key holds the value afterwards, whatever it held before.
#[verifier::external_body]
pub(crate) fn put(
    fields: &mut serde_json::Map<String, serde_json::Value>,
    key: &str,
    value: serde_json::Value,
)
    ensures
        fields_of(*final(fields)) == fields_of(*old(fields)).insert(key@, json_of(value)),
{
    fields.insert(key.to_string(), value);
}

/// `serde_json::Value::clone`: a value that holds the same.
#[verifier::external_body]
pub(crate) fn same(value: &serde_json::Value) -> (copy: serde_json::Value)
    ensures
        json_of(copy) == json_of(*value),
{
    value.clone()
}

/// The text that `serde_json::to_string_pretty` makes of what a value holds.
pub uninterp spec fn pretty_json(model: JsonModel) -> Seq<char>;

/// What `serde_json::from_str` reads out of a text, where it reads anything.
pub uninterp spec fn parsed_json(text: Seq<char>) -> Option<JsonModel>;

/// `serde_json::to_string_pretty`: the value over several lines. Serialising a
/// `Value` does not fail: its keys are strings and its numbers finite. An object's
/// keys come out in their order, so the text depends on what the value holds alone.
#[verifier::external_body]
pub(crate) fn pretty_text(value: &serde_json::Value) -> (lines: String)
    ensures
        lines@ == pretty_json(json_of(*value)),
{
    serde_json::to_string_pretty(value).unwrap()
}

/// `serde_json::from_str` into a `Value`: what the text holds, or nothing where
/// the text is not JSON.
#[verifier::external_body]
pub(crate) fn parse(text: &str) -> (value: Option<serde_json::Value>)
    ensures
        match value {
            Some(v) => parsed_json(text@) == Some(json_of(v)),
            None => parsed_json(text@) is None,
        },
{
    serde_json::from_str(text).ok()
}

/// What stands under a key of an object.
pub open spec fn under(value: JsonModel, key: Seq<char>) -> Option<JsonModel> {
    match value {
        JsonModel::Obj(fields) => if fields.contains_key(key) {
            Some(fields[key])
        } else {
            None
        },
        _ => None,
    }
}

/// The number that stands under a key of an object.
pub open spec fn number_under(value: JsonModel, key: Seq<char>) -> Option<int> {
    match under(value, key) {
        Some(JsonModel::Num(n)) => Some(n),
        _ => None,
    }
}

/// The string that stands under a key of an object.
pub open spec fn text_under(value: JsonModel, key: Seq<char>) -> Option<Seq<char>> {
    match under(value, key) {
        Some(JsonModel::Str(text)) => Some(text),
        _ => None,
    }
}

/// The flag that stands under a key of an object.
pub open spec fn flag_under(value: JsonModel, key: Seq<char>) -> Option<bool> {
    match under(value, key) {
        Some(JsonModel::Bool(flag)) => Some(flag),
        _ => None,
    }
}

/// What `null` or a number holds.
pub open spec fn opt_num(n: Option<u64>) -> JsonModel {
    match n {
        Some(n) => JsonModel::Num(n as int),
        None => JsonModel::Null,
    }
}

/// The number, or `null` where there is none.
pub(crate) fn opt_number(n: Option<u64>) -> (value: serde_json::Value)
    ensures
        json_of(value) == opt_num(n),
{
    match n {
        Some(n) => number(n),
        None => null(),
    }
}

/// What an array of numbers holds.
pub open spec fn num_array(ns: Seq<u64>) -> JsonModel {
    JsonModel::Arr(ns.map_values(|n: u64| JsonModel::Num(n as int)))
}

/// An array of numbers.
pub(crate) fn numbers(ns: &Vec<u64>) -> (value: serde_json::Value)
    ensures
        json_of(value) == num_array(ns@),
{
    rows(ns, number_at, Ghost(|n: u64| JsonModel::Num(n as int)))
}

/// The number.
fn number_at(n: &u64) -> (value: serde_json::Value)
    ensures
        json_of(value) == JsonModel::Num(*n as int),
{
    number(*n)
}

/// One array entry for each of `items`, in order; `model` says what the entry
/// that `entry` makes of an item holds.
pub(crate) fn rows<T, F: Fn(&T) -> serde_json::Value>(
    items: &Vec<T>,
    entry: F,
    model: Ghost<spec_fn(T) -> JsonModel>,
) -> (value: serde_json::Value)
    requires
        forall|item: T| #[trigger] call_requires(entry, (&item,)),
        forall|item: T, v: serde_json::Value| #[trigger]
            call_ensures(entry, (&item,), v) ==> json_of(v) == model@(item),
    ensures
        json_of(value) == JsonModel::Arr(items@.map_values(model@)),
{
    let mut values: Vec<serde_json::Value> = Vec::new();
    let mut i: usize = 0;
    while i < items.len()
        invariant
            i <= items@.len(),
            values@.len() == i,
            forall|item: T| #[trigger] call_requires(entry, (&item,)),
            forall|item: T, v: serde_json::Value| #[trigger]
                call_ensures(entry, (&item,), v) ==> json_of(v) == model@(item),
            forall|k: int| 0 <= k < i ==> json_of(#[trigger] values@[k]) == model@(items@[k]),
        decreases items@.len() - i,
    {
        values.push(entry(&items[i]));
        i = i + 1;
    }
    assert(models(values@) =~= items@.map_values(model@));
    array(values)
}

/// One array entry for each of `items` that `keep` keeps, in order.
pub(crate) fn rows_where<T, K: Fn(&T) -> bool, F: Fn(&T) -> serde_json::Value>(
    items: &Vec<T>,
    keep: K,
    entry: F,
    kept: Ghost<spec_fn(T) -> bool>,
    model: Ghost<spec_fn(T) -> JsonModel>,
) -> (value: serde_json::Value)
    requires
        forall|item: T| #[trigger] call_requires(keep, (&item,)),
        forall|item: T, b: bool| #[trigger] call_ensures(keep, (&item,), b) ==> b == kept@(item),
        forall|item: T| #[trigger] call_requires(entry, (&item,)),
        forall|item: T, v: serde_json::Value| #[trigger]
            call_ensures(entry, (&item,), v) ==> json_of(v) == model@(item),
    ensures
        json_of(value) == JsonModel::Arr(items@.filter(kept@).map_values(model@)),
{
    let mut values: Vec<serde_json::Value> = Vec::new();
    let mut i: usize = 0;
    proof {
        reveal(Seq::filter);
        assert(items@.take(0).filter(kept@) =~= Seq::empty());
    }
    while i < items.len()
        invariant
            i <= items@.len(),
            forall|item: T| #[trigger] call_requires(keep, (&item,)),
            forall|item: T, b: bool| #[trigger]
                call_ensures(keep, (&item,), b) ==> b == kept@(item),
            forall|item: T| #[trigger] call_requires(entry, (&item,)),
            forall|item: T, v: serde_json::Value| #[trigger]
                call_ensures(entry, (&item,), v) ==> json_of(v) == model@(item),
            models(values@) =~= items@.take(i as int).filter(kept@).map_values(model@),
        decreases items@.len() - i,
    {
        proof {
            reveal(Seq::filter);
            assert(items@.take(i + 1).drop_last() =~= items@.take(i as int));
        }
        if keep(&items[i]) {
            let ghost here = models(values@);
            values.push(entry(&items[i]));
            assert(models(values@) =~= here.push(model@(items@[i as int])));
        }
        i = i + 1;
    }
    assert(items@.take(items@.len() as int) =~= items@);
    array(values)
}

/// What an array of strings holds.
pub open spec fn text_array(texts: Seq<String>) -> JsonModel {
    JsonModel::Arr(texts.map_values(|t: String| JsonModel::Str(t@)))
}

/// An array of strings.
pub(crate) fn texts(list: &Vec<String>) -> (value: serde_json::Value)
    ensures
        json_of(value) == text_array(list@),
{
    rows(list, text_at, Ghost(|t: String| JsonModel::Str(t@)))
}

/// The string.
fn text_at(t: &String) -> (value: serde_json::Value)
    ensures
        json_of(value) == JsonModel::Str(t@),
{
    text(t.as_str())
}

/// What an array of labelled counts holds: for each, an object with the label
/// and the count.
pub open spec fn labelled_model(
    counts: Seq<(String, u64)>,
    label_key: Seq<char>,
    count_key: Seq<char>,
) -> JsonModel {
    JsonModel::Arr(
        counts.map_values(
            |row: (String, u64)|
                JsonModel::Obj(
                    map![label_key => JsonModel::Str(row.0@), count_key => JsonModel::Num(row.1 as int)],
                ),
        ),
    )
}

/// An array of labelled counts, each an object with its label under `label_key`
/// and its count under `count_key`.
pub(crate) fn labelled(
    counts: &Vec<(String, u64)>,
    label_key: &str,
    count_key: &str,
) -> (value: serde_json::Value)
    ensures
        json_of(value) == labelled_model(counts@, label_key@, count_key@),
{
    let mut values: Vec<serde_json::Value> = Vec::new();
    let mut i: usize = 0;
    while i < counts.len()
        invariant
            i <= counts@.len(),
            values@.len() == i,
            forall|k: int|
                0 <= k < i ==> json_of(#[trigger] values@[k]) == JsonModel::Obj(
                    map![
                        label_key@ => JsonModel::Str(counts@[k].0@),
                        count_key@ => JsonModel::Num(counts@[k].1 as int),
                    ],
                ),
        decreases counts@.len() - i,
    {
        let mut fields = no_fields();
        put_text(&mut fields, label_key, counts[i].0.as_str());
        put_number(&mut fields, count_key, counts[i].1);
        values.push(object(fields));
        i = i + 1;
    }
    proof {
        assert(JsonModel::Arr(models(values@)) == labelled_model(
            counts@,
            label_key@,
            count_key@,
        )) by {
            assert(models(values@) =~= labelled_model(counts@, label_key@, count_key@)->Arr_0);
        }
    }
    array(values)
}

/// Sets `key` to the flag.
pub(crate) fn put_flag(
    fields: &mut serde_json::Map<String, serde_json::Value>,
    key: &str,
    flag: bool,
)
    ensures
        fields_of(*final(fields)) == fields_of(*old(fields)).insert(key@, JsonModel::Bool(flag)),
{
    put(fields, key, boolean(flag));
}

/// Sets `key` to the text.
pub(crate) fn put_text(
    fields: &mut serde_json::Map<String, serde_json::Value>,
    key: &str,
    s: &str,
)
    ensures
        fields_of(*final(fields)) == fields_of(*old(fields)).insert(key@, JsonModel::Str(s@)),
{
    put(fields, key, text(s));
}

/// Sets `key` to the number `n`.
pub(crate) fn put_number(
    fields: &mut serde_json::Map<String, serde_json::Value>,
    key: &str,
    n: u64,
)
    ensures
        fields_of(*final(fields)) == fields_of(*old(fields)).insert(key@, JsonModel::Num(n as int)),
{
    put(fields, key, number(n));
}

} // verus!
