//! TOML documents, as far as the emulator looks at them before they are taken
//! apart.

use vstd::prelude::*;

verus! {

/// What a TOML value holds.
pub enum TomlModel {
    /// A table: its keys, each with what its value holds.
    Table(Map<Seq<char>, TomlModel>),
    /// An array.
    Arr(Seq<TomlModel>),
    /// A string.
    Str(Seq<char>),
    /// A whole number.
    Num(int),
    /// Any other number, by the bits of its binary64 value; every NaN is the same one.
    Real(u64),
    /// `true` or `false`.
    Bool(bool),
    /// A date or a time, as it is written.
    Date(Seq<char>),
}

/// `toml::Value`, a value of a document.
#[verifier::external_type_specification]
#[verifier::external_body]
pub struct ExTomlValue(toml::Value);

/// `toml::de::Error`, why a text is no document.
#[verifier::external_type_specification]
#[verifier::external_body]
pub struct ExTomlError(toml::de::Error);

/// What a `toml::Value` holds.
pub uninterp spec fn toml_of(value: toml::Value) -> TomlModel;

/// The document that a text is, where it is one.
pub uninterp spec fn parsed_toml(text: Seq<char>) -> Option<TomlModel>;

/// `toml::from_str` into a `toml::Value`: whether a text is a document, and which,
/// depends on the text alone. What an error says is left open.
#[verifier::external_body]
fn parse_toml(text: &str) -> (value: Result<toml::Value, toml::de::Error>)
    ensures
        match value {
            Ok(v) => parsed_toml(text@) == Some(toml_of(v)),
            Err(_) => parsed_toml(text@) is None,
        },
{
    toml::from_str(text)
}

/// `toml::Value::get` with a text: the value of a key, where there is a table that
/// has it.
#[verifier::external_body]
fn field<'a>(value: &'a toml::Value, key: &str) -> (found: Option<&'a toml::Value>)
    ensures
        match found {
            Some(v) => value_at(toml_of(*value), key@) == Some(toml_of(*v)),
            None => value_at(toml_of(*value), key@) is None,
        },
{
    value.get(key)
}

/// What the value of a key holds, where there is a table that has it.
pub open spec fn value_at(model: TomlModel, key: Seq<char>) -> Option<TomlModel> {
    match model {
        TomlModel::Table(fields) => if fields.dom().contains(key) {
            Some(fields[key])
        } else {
            None
        },
        _ => None,
    }
}

/// Whether a table has a key.
pub open spec fn has_key(model: TomlModel, key: Seq<char>) -> bool {
    value_at(model, key) is Some
}

/// The document that a text is, or why it is none.
pub fn read_document(text: &str) -> (value: Result<toml::Value, toml::de::Error>)
    ensures
        match value {
            Ok(v) => parsed_toml(text@) == Some(toml_of(v)),
            Err(_) => parsed_toml(text@) is None,
        },
{
    parse_toml(text)
}

/// Whether a table has a key.
pub fn contains(value: &toml::Value, key: &str) -> (yes: bool)
    ensures
        yes == has_key(toml_of(*value), key@),
{
    field(value, key).is_some()
}

/// Whether a table within a table has a key.
pub fn contains_within(value: &toml::Value, table: &str, key: &str) -> (yes: bool)
    ensures
        yes == (value_at(toml_of(*value), table@) matches Some(inner) && has_key(inner, key@)),
{
    match field(value, table) {
        Some(inner) => contains(inner, key),
        None => false,
    }
}

/// Whether a table within a table within a table has a key.
pub fn contains_deep(value: &toml::Value, outer: &str, table: &str, key: &str) -> (yes: bool)
    ensures
        yes == (value_at(toml_of(*value), outer@) matches Some(middle) && (value_at(middle, table@)
            matches Some(inner) && has_key(inner, key@))),
{
    match field(value, outer) {
        Some(middle) => contains_within(middle, table, key),
        None => false,
    }
}

} // verus!
