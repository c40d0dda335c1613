//! JSON documents, read through `serde_json`.
//!
//! A parsed value stays a `serde_json::Value`. What the library knows of a
//! value is its compact text, `json_text`; what `serde_json` finds in a value
//! is named as a function of that text.

use vstd::prelude::*;
use serde_json::Value;

verus! {

/// A JSON value of `serde_json`.
#[verifier::external_type_specification]
#[verifier::external_body]
pub struct ExValue(serde_json::Value);

/// The compact text that `serde_json` writes for a value. Two values with one
/// text are the same value.
pub uninterp spec fn json_text(v: Value) -> Seq<char>;

/// The compact text of the value that `text` parses to; `None` where `text`
/// is no JSON document.
pub uninterp spec fn json_parsed(text: Seq<char>) -> Option<Seq<char>>;

/// The compact text of the member `key` of the object with the compact text
/// `doc`; `None` where `doc` is no object or has no such member.
pub uninterp spec fn json_member(doc: Seq<char>, key: Seq<char>) -> Option<Seq<char>>;

/// The compact text of the value that a JSON pointer leads to in the value
/// with the compact text `doc`; `None` where it leads nowhere.
pub uninterp spec fn json_at(doc: Seq<char>, pointer: Seq<char>) -> Option<Seq<char>>;

/// The characters of the JSON string with the compact text `doc`; `None`
/// where `doc` is no string.
pub uninterp spec fn json_string(doc: Seq<char>) -> Option<Seq<char>>;

/// The JSON number with the compact text `doc`, cut to a whole number and
/// held to the range of `i64`; `None` where `doc` is no number.
pub uninterp spec fn json_seconds(doc: Seq<char>) -> Option<i64>;

/// `serde_json::from_str` for a `Value`: the parsed document, `None` where
/// the text is refused.
#[verifier::external_body]
pub(crate) fn parse_json(text: &str) -> (r: Option<Value>)
    ensures
        match r {
            Some(v) => json_parsed(text@) == Some(json_text(v)),
            None => json_parsed(text@) is None,
        },
{
    serde_json::from_str::<Value>(text).ok()
}

/// `Value::get` with a string key: the member of that name, where the value
/// is an object that has one.
#[verifier::external_body]
pub(crate) fn json_get<'a>(v: &'a Value, key: &str) -> (r: Option<&'a Value>)
    ensures
        match r {
            Some(m) => json_member(json_text(*v), key@) == Some(json_text(*m)),
            None => json_member(json_text(*v), key@) is None,
        },
{
    v.get(key)
}

/// `Value::pointer`: the value that a JSON pointer leads to.
#[verifier::external_body]
pub(crate) fn json_pointer<'a>(v: &'a Value, pointer: &str) -> (r: Option<&'a Value>)
    ensures
        match r {
            Some(m) => json_at(json_text(*v), pointer@) == Some(json_text(*m)),
            None => json_at(json_text(*v), pointer@) is None,
        },
{
    v.pointer(pointer)
}

/// `Value::as_str`: the characters of a value that is a string.
#[verifier::external_body]
pub(crate) fn json_as_str<'a>(v: &'a Value) -> (r: Option<&'a str>)
    ensures
        match r {
            Some(s) => json_string(json_text(*v)) == Some(s@),
            None => json_string(json_text(*v)) is None,
        },
{
    v.as_str()
}

/// `Value::as_f64`, cast to `i64`: a number without its fraction, and the
/// nearest end of the range where it lies outside.
#[verifier::external_body]
pub(crate) fn json_as_seconds(v: &Value) -> (r: Option<i64>)
    ensures
        r == json_seconds(json_text(*v)),
{
    match v.as_f64() {
        Some(f) => Some(f as i64),
        None => None,
    }
}

/// `Value::to_string`: the compact text of a value.
#[verifier::external_body]
pub(crate) fn json_to_string(v: &Value) -> (r: String)
    ensures
        r@ == json_text(*v),
{
    v.to_string()
}

} // verus!
