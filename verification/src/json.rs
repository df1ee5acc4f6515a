//! The few things this library asks of a JSON document: whether a text is
//! one, which of its members are strings, and how an object of strings is written.

use vstd::prelude::*;

verus! {

/// A parsed JSON document. Nothing of its inside is visible here.
#[verifier::external_type_specification]
#[verifier::external_body]
pub struct ExJsonValue(serde_json::Value);

/// Why a text is not a JSON document. Nothing of its inside is visible here.
#[verifier::external_type_specification]
#[verifier::external_body]
pub struct ExJsonError(serde_json::Error);

/// The members of a document that are strings, by key: those of its
/// top-level object, and none where the document is not an object.
pub uninterp spec fn json_members(value: serde_json::Value) -> Map<Seq<char>, Seq<char>>;

/// The members of a document that are integers from zero up to the largest
/// 64-bit unsigned one, by key: those of its top-level object, and none where
/// the document is not an object.
pub uninterp spec fn json_counts(value: serde_json::Value) -> Map<Seq<char>, u64>;

/// The string members of the document that a text parses to; nothing where
/// the text is not a JSON document.
pub uninterp spec fn parsed_members(text: Seq<char>) -> Option<Map<Seq<char>, Seq<char>>>;

/// The text of the JSON object whose members are the given keys with the
/// given strings, a later pair replacing an earlier one with the same key.
pub uninterp spec fn json_object_text(members: Seq<(Seq<char>, Seq<char>)>) -> Seq<char>;

/// `serde_json::from_str` at the type `serde_json::Value`. Whether the
/// text parses, and to which string members, is taken to depend on the text alone.
#[verifier::external_body]
pub(crate) fn parse_json(text: &str) -> (r: Result<serde_json::Value, serde_json::Error>)
    ensures
        match r {
            Ok(value) => parsed_members(text@) == Some(json_members(value)),
            Err(_) => parsed_members(text@) is None,
        },
{
    serde_json::from_str::<serde_json::Value>(text)
}

/// `Value::get` with a string key: the member with that key if the
/// document is an object that has it and the member is a string.
#[verifier::external_body]
pub(crate) fn string_member(value: &serde_json::Value, key: &str) -> (r: Option<String>)
    ensures
        r.deep_view() == if json_members(*value).contains_key(key@) {
            Some(json_members(*value)[key@])
        } else {
            None
        },
{
    match value.get(key) {
        Some(serde_json::Value::String(text)) => Some(text.clone()),
        _ => None,
    }
}

/// `Value::get` with a string key, then `Value::as_u64` on the member: the
/// member with that key if the document is an object that has it and the
/// member is an integer that fits in 64 bits without a sign.
#[verifier::external_body]
pub(crate) fn unsigned_member(value: &serde_json::Value, key: &str) -> (r: Option<u64>)
    ensures
        r == if json_counts(*value).contains_key(key@) {
            Some(json_counts(*value)[key@])
        } else {
            None
        },
{
    match value.get(key) {
        Some(member) => member.as_u64(),
        None => None,
    }
}

/// `to_string` of `serde_json::Error`: the message of a parse error.
/// Nothing is claimed of the text.
#[verifier::external_body]
pub(crate) fn json_error_text(error: &serde_json::Error) -> (r: String) {
    error.to_string()
}

/// `to_string` of a `serde_json::Value::Object` whose members are the
/// given pairs, each value a JSON string. The text is taken to depend on the pairs alone.
#[verifier::external_body]
pub(crate) fn write_json_object(members: &Vec<(String, String)>) -> (r: String)
    ensures
        r@ == json_object_text(members.deep_view()),
{
    let object: serde_json::Map<String, serde_json::Value> = members.iter().map(
        |pair| (pair.0.clone(), serde_json::Value::String(pair.1.clone())),
    ).collect();
    serde_json::Value::Object(object).to_string()
}

} // verus!
