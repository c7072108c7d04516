//! JSON values, parsed and written by `serde_json`.
//!
//! A [`serde_json::Value`] is opaque to the verifier. [`Json`] is the mathematical value that
//! one stands for, and the functions here say how the crate's operations read and build it.

use serde_json::Value;
use vstd::prelude::*;

verus! {

/// A JSON value as a mathematical value. Numbers come in the crate's three kinds: integers
/// that are not negative, negative integers, and binary64 numbers by their bit pattern.
pub enum Json {
    Null,
    Bool(bool),
    Unsigned(u64),
    Negative(i64),
    Float(u64),
    Text(Seq<char>),
    Array(Seq<Json>),
    Object(Map<Seq<char>, Json>),
}

impl Json {
    /// The member `key`; null where there is none, or where this is no object.
    pub open spec fn member(self, key: Seq<char>) -> Json {
        match self {
            Json::Object(members) => if members.contains_key(key) {
                members[key]
            } else {
                Json::Null
            },
            _ => Json::Null,
        }
    }

    /// The element `i`; null where there is none, or where this is no array.
    pub open spec fn element(self, i: int) -> Json {
        match self {
            Json::Array(elements) => if 0 <= i < elements.len() {
                elements[i]
            } else {
                Json::Null
            },
            _ => Json::Null,
        }
    }

    /// The text, if this is one.
    pub open spec fn text(self) -> Option<Seq<char>> {
        match self {
            Json::Text(text) => Some(text),
            _ => None,
        }
    }

    /// The number, if this is an integer that is not negative.
    pub open spec fn count(self) -> Option<u64> {
        match self {
            Json::Unsigned(n) => Some(n),
            _ => None,
        }
    }
}

// ---------------------------------------------------------------------------
// What is taken from serde_json
// ---------------------------------------------------------------------------

/// `serde_json::Value`: any JSON value.
#[verifier::external_type_specification]
#[verifier::external_body]
pub struct ExValue(serde_json::Value);

/// `serde_json::Error`: why a text is no JSON.
#[verifier::external_type_specification]
#[verifier::external_body]
pub struct ExError(serde_json::Error);

/// What a `serde_json::Value` holds.
pub uninterp spec fn json_view(value: serde_json::Value) -> Json;

/// What a `serde_json::Error` says of itself when it is displayed.
pub uninterp spec fn json_error_view(error: serde_json::Error) -> Seq<char>;

/// What `serde_json::from_str` makes of a text: the value that it denotes, or what is wrong
/// with it.
pub uninterp spec fn json_of(text: Seq<char>) -> Result<Json, Seq<char>>;

/// What `serde_json::to_vec` writes for a value: its compact JSON text in UTF-8, with the
/// members of an object in the order of their keys (the crate's feature that keeps the order
/// of insertion is off).
pub uninterp spec fn json_bytes(value: Json) -> Seq<u8>;

/// `serde_json::from_str` into a `Value`: the result depends on the text alone. Of malformed
/// text it gives an error, whose words are part of that result.
#[verifier::external_body]
pub(crate) fn parse(text: &str) -> (parsed: Result<Value, serde_json::Error>)
    ensures
        match parsed {
            Ok(value) => json_of(text@) == Ok::<Json, Seq<char>>(json_view(value)),
            Err(error) => json_of(text@) == Err::<Json, Seq<char>>(json_error_view(error)),
        },
{
    serde_json::from_str(text)
}

/// `Display` of `serde_json::Error`, by `to_string`.
#[verifier::external_body]
pub(crate) fn error_text(error: &serde_json::Error) -> (text: String)
    ensures
        text@ == json_error_view(*error),
{
    error.to_string()
}

/// Indexing a `Value` by a string: the member of an object under that key, and null for
/// anything else.
#[verifier::external_body]
pub(crate) fn member<'a>(value: &'a Value, key: &str) -> (found: &'a Value)
    ensures
        json_view(*found) == json_view(*value).member(key@),
{
    &value[key]
}

/// Indexing a `Value` by a number: the element of an array at that place, and null for
/// anything else.
#[verifier::external_body]
pub(crate) fn element(value: &Value, i: usize) -> (found: &Value)
    ensures
        json_view(*found) == json_view(*value).element(i as int),
{
    &value[i]
}

/// `Value::as_str`: the text, if the value is one.
#[verifier::external_body]
pub(crate) fn as_text(value: &Value) -> (text: Option<&str>)
    ensures
        match text {
            Some(text) => json_view(*value).text() == Some(text@),
            None => json_view(*value).text() is None,
        },
{
    value.as_str()
}

/// `Value::as_u64`: the number, if the value is an integer that is not negative.
#[verifier::external_body]
pub(crate) fn as_count(value: &Value) -> (n: Option<u64>)
    ensures
        n == json_view(*value).count(),
{
    value.as_u64()
}

/// `Value::from` a string: that text.
#[verifier::external_body]
pub(crate) fn from_text(text: &str) -> (value: Value)
    ensures
        json_view(value) == Json::Text(text@),
{
    Value::from(text)
}

/// `Value::from` a `u64`: that number.
#[verifier::external_body]
pub(crate) fn from_count(n: u64) -> (value: Value)
    ensures
        json_view(value) == Json::Unsigned(n),
{
    Value::from(n)
}

/// `Value::from` a `bool`: that truth value.
#[verifier::external_body]
pub(crate) fn from_flag(flag: bool) -> (value: Value)
    ensures
        json_view(value) == Json::Bool(flag),
{
    Value::from(flag)
}

/// What each of a list of values holds.
pub open spec fn json_views(values: Seq<Value>) -> Seq<Json> {
    Seq::new(values.len(), |i: int| json_view(values[i]))
}

/// `Value::from` a vector of values: the array of them, in order.
#[verifier::external_body]
pub(crate) fn from_array(values: Vec<Value>) -> (value: Value)
    ensures
        json_view(value) == Json::Array(json_views(values@)),
{
    Value::from(values)
}

/// `Value::from` an empty `serde_json::Map`: the object without members.
#[verifier::external_body]
pub(crate) fn empty_object() -> (value: Value)
    ensures
        json_view(value) == Json::Object(Map::empty()),
{
    Value::from(serde_json::Map::new())
}

/// Assigning to a `Value` that is an object, indexed by a string: the member under that key
/// is replaced, or inserted where there was none. (On a value of another type but null the
/// crate panics.)
#[verifier::external_body]
pub(crate) fn set_member(object: &mut Value, key: &str, value: Value)
    requires
        json_view(*old(object)) is Object,
    ensures
        json_view(*final(object)) == Json::Object(
            json_view(*old(object))->Object_0.insert(key@, json_view(value)),
        ),
{
    object[key] = value;
}

/// `serde_json::to_vec` of a `Value`: writing one never fails, as it has no keys but strings
/// and goes to memory, and the bytes depend on what the value holds alone.
#[verifier::external_body]
pub(crate) fn to_bytes(value: &Value) -> (written: Result<Vec<u8>, serde_json::Error>)
    ensures
        written is Ok,
        written->Ok_0@ == json_bytes(json_view(*value)),
{
    serde_json::to_vec(value)
}

} // verus!
