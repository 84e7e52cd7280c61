//! JSON documents: their model, and the boundary to the reader.
//!
//! The reader is `serde_json`. Its documents are values of
//! `serde_json::Value`, which the verifier cannot look into; `json_of`
//! names what such a value holds, as a `Json`. The functions at the end of
//! this file each hand one call to `serde_json`. Their contracts are not
//! proved: they state, over `json_of`, what the reader's source shows of
//! the call.

use vstd::prelude::*;

verus! {

/// What a JSON document holds.
pub enum Json {
    Null,
    Bool(bool),
    /// A number that the reader holds as an integer.
    Integer(int),
    /// A number that the reader holds in another form.
    OtherNumber,
    Text(Seq<char>),
    Array(Seq<Json>),
    /// The members of an object by their names.
    Object(Map<Seq<char>, Json>),
}

impl Json {
    /// The elements, if this is an array.
    pub open spec fn items(self) -> Option<Seq<Json>> {
        match self {
            Json::Array(items) => Some(items),
            _ => None,
        }
    }

    /// The member named `key`, if this is an object that has one.
    pub open spec fn member(self, key: Seq<char>) -> Option<Json> {
        match self {
            Json::Object(members) => if members.contains_key(key) {
                Some(members[key])
            } else {
                None
            },
            _ => None,
        }
    }

    /// The text, if this is a string.
    pub open spec fn text(self) -> Option<Seq<char>> {
        match self {
            Json::Text(text) => Some(text),
            _ => None,
        }
    }

    /// The number, if this is an integer that fits `i64`.
    pub open spec fn integer(self) -> Option<i64> {
        match self {
            Json::Integer(number) => if i64::MIN <= number <= i64::MAX {
                Some(number as i64)
            } else {
                None
            },
            _ => None,
        }
    }
}

/// `serde_json::Value`, a JSON document or a part of one.
#[verifier::external_type_specification]
#[verifier::external_body]
pub struct ExValue(serde_json::Value);

/// `serde_json::Error`, the reader's account of why a text is no JSON.
#[verifier::external_type_specification]
#[verifier::external_body]
pub struct ExError(serde_json::Error);

/// What `value` holds.
pub uninterp spec fn json_of(value: serde_json::Value) -> Json;

/// The text in which `error` describes itself.
pub uninterp spec fn error_text(error: serde_json::Error) -> Seq<char>;

/// What the reader makes of `text`: the document, or the description of
/// the error.
pub uninterp spec fn json_document(text: Seq<char>) -> Result<Json, Seq<char>>;

/// What each of `values` holds.
pub open spec fn jsons_of(values: Seq<serde_json::Value>) -> Seq<Json> {
    Seq::new(values.len(), |i: int| json_of(values[i]))
}

/// Calls `serde_json::from_str` for a `Value`. Claimed: whether the text
/// is accepted, and what the document holds or how the error describes
/// itself, depends on the text alone.
#[verifier::external_body]
pub(crate) fn parse_json(text: &str) -> (outcome: Result<serde_json::Value, serde_json::Error>)
    ensures
        match outcome {
            Ok(document) => json_document(text@) == Ok::<Json, Seq<char>>(json_of(document)),
            Err(error) => json_document(text@) == Err::<Json, Seq<char>>(error_text(error)),
        },
{
    serde_json::from_str::<serde_json::Value>(text)
}

/// Calls `Value::as_array`. Claimed: an array hands out its elements, and
/// nothing else hands out anything.
#[verifier::external_body]
pub(crate) fn value_as_array(value: &serde_json::Value) -> (items: Option<&Vec<serde_json::Value>>)
    ensures
        match items {
            Some(list) => json_of(*value).items() == Some(jsons_of(list@)),
            None => json_of(*value).items() is None,
        },
{
    value.as_array()
}

/// Calls `Value::get` with a string key. Claimed: an object that has a
/// member of that name hands it out, and nothing else hands out anything.
#[verifier::external_body]
pub(crate) fn value_member<'a>(value: &'a serde_json::Value, key: &str) -> (member: Option<
    &'a serde_json::Value,
>)
    ensures
        match member {
            Some(inner) => json_of(*value).member(key@) == Some(json_of(*inner)),
            None => json_of(*value).member(key@) is None,
        },
{
    value.get(key)
}

/// Calls `Value::as_str`. Claimed: a string hands out its text, and
/// nothing else hands out anything.
#[verifier::external_body]
pub(crate) fn value_as_str(value: &serde_json::Value) -> (text: Option<&str>)
    ensures
        match text {
            Some(s) => json_of(*value).text() == Some(s@),
            None => json_of(*value).text() is None,
        },
{
    value.as_str()
}

/// Calls `Value::as_i64`. Claimed: an integer that fits `i64` hands out
/// its number, and nothing else hands out anything.
#[verifier::external_body]
pub(crate) fn value_as_i64(value: &serde_json::Value) -> (number: Option<i64>)
    ensures
        number == json_of(*value).integer(),
{
    value.as_i64()
}

/// Calls `to_string` on a `serde_json::Error`. Claimed: the text is the
/// one that `error_text` names.
#[verifier::external_body]
pub(crate) fn error_to_string(error: &serde_json::Error) -> (text: String)
    ensures
        text@ == error_text(*error),
{
    error.to_string()
}

} // verus!
