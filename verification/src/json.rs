//! JSON values as `serde_json` holds them: the library carries them
//! through and reads them only through the functions here, whose results
//! are named by what `serde_json` gives for their arguments.
use vstd::prelude::*;

verus! {

/// A JSON value as `serde_json` holds it; the library carries it through.
#[verifier::external_type_specification]
#[verifier::external_body]
pub struct ExJsonValue(serde_json::Value);

/// `serde_json::Value::clone`: `Value` derives `Clone`, so the copy is the
/// same value.
pub assume_specification[ <serde_json::Value as Clone>::clone ](v: &serde_json::Value) -> (r: serde_json::Value)
    ensures
        r == *v,
;

/// What `serde_json::from_str::<Value>` gives for a text: the value it
/// parses to, or the message of the parse error. It depends on the text
/// alone.
pub uninterp spec fn json_parse(text: Seq<char>) -> Result<serde_json::Value, Seq<char>>;

/// `serde_json::from_str::<serde_json::Value>`: parses a JSON text; the
/// error is given by its message.
#[verifier::external_body]
pub(crate) fn parse_json_text(text: &str) -> (r: Result<serde_json::Value, String>)
    ensures
        match r {
            Ok(v) => json_parse(text@) == Ok::<serde_json::Value, Seq<char>>(v),
            Err(m) => json_parse(text@) == Err::<serde_json::Value, Seq<char>>(m@),
        },
{
    match serde_json::from_str::<serde_json::Value>(text) {
        Ok(v) => Ok(v),
        Err(e) => Err(e.to_string()),
    }
}

/// The string `serde_json` stores under `key` in `v`, when `v` is an object
/// with a string there.
pub uninterp spec fn json_field_str(v: serde_json::Value, key: Seq<char>) -> Option<Seq<char>>;

/// `Value::get` then `Value::as_str`: the string under `key` of an object.
#[verifier::external_body]
pub(crate) fn json_str_field(v: &serde_json::Value, key: &str) -> (r: Option<String>)
    ensures
        json_field_str(*v, key@) == match r {
            Some(s) => Some(s@),
            None => None::<Seq<char>>,
        },
{
    match v.get(key) {
        Some(f) => f.as_str().map(|s| s.to_string()),
        None => None,
    }
}

/// The boolean `serde_json` stores under `key` in `v`, when `v` is an object
/// with a boolean there.
pub uninterp spec fn json_field_bool(v: serde_json::Value, key: Seq<char>) -> Option<bool>;

/// `Value::get` then `Value::as_bool`: the boolean under `key` of an object.
#[verifier::external_body]
pub(crate) fn json_bool_field(v: &serde_json::Value, key: &str) -> (r: Option<bool>)
    ensures
        r == json_field_bool(*v, key@),
{
    match v.get(key) {
        Some(f) => f.as_bool(),
        None => None,
    }
}

/// The number of items of the array `serde_json` stores under `key` in
/// `v`, when `v` is an object with an array there.
pub uninterp spec fn json_field_array_len(v: serde_json::Value, key: Seq<char>) -> Option<nat>;

/// `Value::get` then `Value::as_array`: the length of the array under
/// `key` of an object.
#[verifier::external_body]
pub(crate) fn json_array_field_len(v: &serde_json::Value, key: &str) -> (r: Option<usize>)
    ensures
        json_field_array_len(*v, key@) == match r {
            Some(n) => Some(n as nat),
            None => None::<nat>,
        },
{
    match v.get(key) {
        Some(f) => f.as_array().map(|a| a.len()),
        None => None,
    }
}

/// What `serde_json::to_string` gives for a value: its JSON text, or the
/// message of the error.
pub uninterp spec fn json_serialize(v: serde_json::Value) -> Result<Seq<char>, Seq<char>>;

/// `serde_json::to_string`: the JSON text of a value.
#[verifier::external_body]
pub(crate) fn json_to_text(v: &serde_json::Value) -> (r: Result<String, String>)
    ensures
        json_serialize(*v) == match r {
            Ok(t) => Ok::<Seq<char>, Seq<char>>(t@),
            Err(m) => Err::<Seq<char>, Seq<char>>(m@),
        },
{
    match serde_json::to_string(v) {
        Ok(t) => Ok(t),
        Err(e) => Err(e.to_string()),
    }
}


/// The kind of a JSON value; a number carries what `as_i64` and `as_u64`
/// give of it.
#[derive(Debug, Clone, Copy, PartialEq, Eq, Structural)]
pub enum JsonKind {
    Object,
    Array,
    String,
    Number { as_i64: Option<i64>, as_u64: Option<u64> },
    Bool,
    Null,
}

/// The kind of `v` as `serde_json` represents it.
pub uninterp spec fn json_kind_of(v: serde_json::Value) -> JsonKind;

/// The variant of a `serde_json::Value`; for a number, what
/// `Number::as_i64` and `Number::as_u64` give of it.
#[verifier::external_body]
pub(crate) fn json_kind(v: &serde_json::Value) -> (r: JsonKind)
    ensures
        r == json_kind_of(*v),
{
    match v {
        serde_json::Value::Object(_) => JsonKind::Object,
        serde_json::Value::Array(_) => JsonKind::Array,
        serde_json::Value::String(_) => JsonKind::String,
        serde_json::Value::Number(n) => JsonKind::Number { as_i64: n.as_i64(), as_u64: n.as_u64() },
        serde_json::Value::Bool(_) => JsonKind::Bool,
        serde_json::Value::Null => JsonKind::Null,
    }
}

/// The value `serde_json` stores under `key` in `v`, when `v` is an object
/// that has the key.
pub uninterp spec fn json_field_of(v: serde_json::Value, key: Seq<char>) -> Option<serde_json::Value>;

/// `Value::get`: a copy of the value under `key` of an object.
#[verifier::external_body]
pub(crate) fn json_field(v: &serde_json::Value, key: &str) -> (r: Option<serde_json::Value>)
    ensures
        r == json_field_of(*v, key@),
{
    v.get(key).cloned()
}

/// The items of `v` when it is an array, each as its string when it is one.
pub uninterp spec fn json_array_strs(v: serde_json::Value) -> Option<Seq<Option<Seq<char>>>>;

/// `Value::as_array`, each item through `Value::as_str`.
#[verifier::external_body]
pub(crate) fn json_str_items(v: &serde_json::Value) -> (r: Option<Vec<Option<String>>>)
    ensures
        json_array_strs(*v) == match r {
            Some(items) => Some(
                items@.map_values(
                    |o: Option<String>|
                        match o {
                            Some(s) => Some(s@),
                            None => None::<Seq<char>>,
                        },
                ),
            ),
            None => None::<Seq<Option<Seq<char>>>>,
        },
{
    v.as_array().map(|items| items.iter().map(|x| x.as_str().map(|s| s.to_string())).collect())
}

/// The entries of `v` when it is an object, in the order its map gives them.
pub uninterp spec fn json_object_entries(v: serde_json::Value) -> Option<Seq<(Seq<char>, serde_json::Value)>>;

/// `Value::as_object`, each entry copied out in the map's order.
#[verifier::external_body]
pub(crate) fn json_entries(v: &serde_json::Value) -> (r: Option<Vec<(String, serde_json::Value)>>)
    ensures
        json_object_entries(*v) == match r {
            Some(entries) => Some(
                entries@.map_values(|e: (String, serde_json::Value)| (e.0@, e.1)),
            ),
            None => None::<Seq<(Seq<char>, serde_json::Value)>>,
        },
{
    v.as_object().map(|m| m.iter().map(|(k, x)| (k.clone(), x.clone())).collect())
}

/// The object `serde_json` builds from `entries`, a later entry for a key
/// replacing an earlier one.
pub uninterp spec fn json_object_value(entries: Seq<(Seq<char>, serde_json::Value)>) -> serde_json::Value;

/// `serde_json::Value::Object` of the map collected from `entries`.
#[verifier::external_body]
pub(crate) fn json_object(entries: Vec<(String, serde_json::Value)>) -> (r: serde_json::Value)
    ensures
        r == json_object_value(entries@.map_values(|e: (String, serde_json::Value)| (e.0@, e.1))),
{
    serde_json::Value::Object(entries.into_iter().collect())
}

/// The text `serde_json::Value`'s `Display` writes for `v` (compact JSON).
pub uninterp spec fn json_display_text(v: serde_json::Value) -> Seq<char>;

/// `Value::to_string` through `Display`: the compact JSON text of `v`.
#[verifier::external_body]
pub(crate) fn json_display(v: &serde_json::Value) -> (r: String)
    ensures
        r@ == json_display_text(*v),
{
    v.to_string()
}

/// The JSON string `serde_json` holds for the text `s`.
pub uninterp spec fn json_string_value(s: Seq<char>) -> serde_json::Value;

/// `serde_json::Value::String(s)`.
#[verifier::external_body]
pub(crate) fn json_string(s: String) -> (r: serde_json::Value)
    ensures
        r == json_string_value(s@),
{
    serde_json::Value::String(s)
}

/// The JSON boolean `serde_json` holds for `b`.
pub uninterp spec fn json_bool_value(b: bool) -> serde_json::Value;

/// `serde_json::Value::Bool(b)`.
#[verifier::external_body]
pub(crate) fn json_bool(b: bool) -> (r: serde_json::Value)
    ensures
        r == json_bool_value(b),
{
    serde_json::Value::Bool(b)
}

/// The JSON number `serde_json` holds for the unsigned integer `n`.
pub uninterp spec fn json_u64_value(n: u64) -> serde_json::Value;

/// `serde_json::Value::from(n)`: the number `n`.
#[verifier::external_body]
pub(crate) fn json_u64(n: u64) -> (r: serde_json::Value)
    ensures
        r == json_u64_value(n),
{
    serde_json::Value::from(n)
}

/// The JSON array `serde_json` holds of `items`, in order.
pub uninterp spec fn json_array_value(items: Seq<serde_json::Value>) -> serde_json::Value;

/// `serde_json::Value::Array(items)`.
#[verifier::external_body]
pub(crate) fn json_array(items: Vec<serde_json::Value>) -> (r: serde_json::Value)
    ensures
        r == json_array_value(items@),
{
    serde_json::Value::Array(items)
}

} // verus!
