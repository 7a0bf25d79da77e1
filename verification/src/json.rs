//! JSON documents as the library sees them: parsed by `serde_json`, read
//! through a handful of its accessors, and described one level at a time.

use vstd::prelude::*;
use serde_json::Value;

verus! {

/// Trusted: `serde_json::Value`, a JSON value. Nothing of its inside is
/// known but what [`json_of`] and [`rendered`] say.
#[verifier::external_type_specification]
#[verifier::external_body]
pub struct ExValue(serde_json::Value);

/// Trusted: `serde_json::Error`, what a failed parse reports. It is handed
/// on and never looked into.
#[verifier::external_type_specification]
#[verifier::external_body]
pub struct ExJsonError(serde_json::Error);

/// What a JSON value is at its top level. The members of an object and the
/// elements of a list are values in their own right.
pub enum Json {
    Null,
    Bool(bool),
    /// A number. `whole` is its value where it is held as a whole number
    /// between 0 and 2^64 - 1; any other number has `None`.
    Number { whole: Option<u64> },
    Text(Seq<char>),
    List(Seq<Value>),
    Object(Map<Seq<char>, Value>),
}

/// What a `serde_json::Value` holds: which of the six kinds of JSON value it
/// is, and its content.
pub uninterp spec fn json_of(value: Value) -> Json;

/// The value that `serde_json::from_str` reads out of a text; `None` where
/// it takes the text for no JSON.
pub uninterp spec fn parsed_json(text: Seq<char>) -> Option<Value>;

/// The text that `Value::to_string` writes for a value: its JSON form
/// without any space between the parts.
pub uninterp spec fn rendered(value: Value) -> Seq<char>;

/// The member `key` of an object; `None` where there is none or the value
/// is no object.
pub open spec fn member_of(value: Value, key: Seq<char>) -> Option<Value> {
    match json_of(value) {
        Json::Object(members) => if members.contains_key(key) {
            Some(members[key])
        } else {
            None
        },
        _ => None,
    }
}

/// The member `key` of an object, where a missing member and a `null` both
/// count as absent.
pub open spec fn optional_of(value: Value, key: Seq<char>) -> Option<Value> {
    match member_of(value, key) {
        Some(inner) => if json_of(inner) is Null {
            None
        } else {
            Some(inner)
        },
        None => None,
    }
}

/// The elements of a list; `None` where the value is no list.
pub open spec fn elements_of(value: Value) -> Option<Seq<Value>> {
    match json_of(value) {
        Json::List(items) => Some(items),
        _ => None,
    }
}

/// The characters of a string; `None` where the value is no string.
pub open spec fn text_of(value: Value) -> Option<Seq<char>> {
    match json_of(value) {
        Json::Text(text) => Some(text),
        _ => None,
    }
}

/// The characters of the string member `key` of an object; `None` where
/// there is no such member or it is no string.
pub open spec fn text_member_of(value: Value, key: Seq<char>) -> Option<Seq<char>> {
    match member_of(value, key) {
        Some(inner) => text_of(inner),
        None => None,
    }
}

/// A whole number from 0 to 2^64 - 1; `None` where the value is none.
pub open spec fn whole_of(value: Value) -> Option<u64> {
    match json_of(value) {
        Json::Number { whole } => whole,
        _ => None,
    }
}

/// Trusted: `serde_json::from_str` at type `Value`. Whether a text parses,
/// and to which value, depends on the text alone: the result is
/// [`parsed_json`] of the text, and an error stands for `None`.
#[verifier::external_body]
pub(crate) fn parse_json(text: &str) -> (outcome: Result<Value, serde_json::Error>)
    ensures
        match outcome {
            Ok(value) => parsed_json(text@) == Some(value),
            Err(_) => parsed_json(text@) is None,
        },
{
    serde_json::from_str(text)
}

/// Trusted: `Value::get` with a string key. It yields the member of that name
/// when the value is an object that has one, and nothing when the value is
/// an object without it or no object at all.
#[verifier::external_body]
pub(crate) fn member<'a>(value: &'a Value, key: &str) -> (found: Option<&'a Value>)
    ensures
        match found {
            Some(inner) => member_of(*value, key@) == Some(*inner),
            None => member_of(*value, key@) is None,
        },
{
    value.get(key)
}

/// Trusted: `Value::as_array`. It yields the elements, in their order, when
/// the value is an array, and nothing otherwise.
#[verifier::external_body]
pub(crate) fn elements<'a>(value: &'a Value) -> (found: Option<&'a Vec<Value>>)
    ensures
        match found {
            Some(list) => elements_of(*value) == Some(list@),
            None => elements_of(*value) is None,
        },
{
    value.as_array()
}

/// Trusted: `Value::as_str`. It yields the text when the value is a string,
/// and nothing otherwise.
#[verifier::external_body]
pub(crate) fn text<'a>(value: &'a Value) -> (found: Option<&'a str>)
    ensures
        match found {
            Some(text) => text_of(*value) == Some(text@),
            None => text_of(*value) is None,
        },
{
    value.as_str()
}

/// Trusted: `Value::as_u64`. It yields the value of a number that is held as
/// an unsigned integer, and nothing for any other number or value.
#[verifier::external_body]
pub(crate) fn whole(value: &Value) -> (found: Option<u64>)
    ensures
        found == whole_of(*value),
{
    value.as_u64()
}

/// Trusted: `Value::to_string`. What it writes depends on the value alone:
/// the result is [`rendered`] of the value.
#[verifier::external_body]
pub(crate) fn render(value: &Value) -> (out: String)
    ensures
        out@ == rendered(*value),
{
    value.to_string()
}

/// Trusted: `Value::is_null`. It says whether the value is the JSON `null`.
#[verifier::external_body]
pub(crate) fn is_null(value: &Value) -> (null: bool)
    ensures
        null == (json_of(*value) is Null),
{
    value.is_null()
}

/// Trusted: `Value::is_object`. It says whether the value is a JSON object.
#[verifier::external_body]
pub(crate) fn is_object(value: &Value) -> (object: bool)
    ensures
        object == (json_of(*value) is Object),
{
    value.is_object()
}

/// The characters of the string member `key` of `value`.
pub(crate) fn text_member<'a>(value: &'a Value, key: &str) -> (found: Option<&'a str>)
    ensures
        match found {
            Some(text) => text_member_of(*value, key@) == Some(text@),
            None => text_member_of(*value, key@) is None,
        },
{
    match member(value, key) {
        Some(inner) => text(inner),
        None => None,
    }
}

/// The member `key` of `value`, where a missing member and a `null` both
/// count as absent.
pub(crate) fn optional<'a>(value: &'a Value, key: &str) -> (found: Option<&'a Value>)
    ensures
        match found {
            Some(inner) => optional_of(*value, key@) == Some(*inner),
            None => optional_of(*value, key@) is None,
        },
{
    match member(value, key) {
        Some(inner) => if is_null(inner) {
            None
        } else {
            Some(inner)
        },
        None => None,
    }
}

} // verus!
