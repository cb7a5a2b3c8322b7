//! JSON documents, written and read by `serde_json`.

use vstd::prelude::*;

verus! {

/// `serde_json::Value`: a JSON value, carried through and never looked into.
#[verifier::external_type_specification]
#[verifier::external_body]
pub struct ExJsonValue(serde_json::Value);

/// `serde_json::Error`: why a call below failed, never looked into.
#[verifier::external_type_specification]
#[verifier::external_body]
pub struct ExJsonError(serde_json::Error);

/// The text that `serde_json::to_string` writes for a JSON value, or `None`
/// where it fails. The writer reads nothing but the value.
pub uninterp spec fn json_text(value: serde_json::Value) -> Option<Seq<char>>;

/// The JSON value that `serde_json::from_str` reads from a text, or `None`
/// where it fails. The reader reads nothing but the text.
pub uninterp spec fn json_value(text: Seq<char>) -> Option<serde_json::Value>;

/// Calls `serde_json::to_string` on a JSON value. The claim is only that the
/// outcome is the one that `json_text` names: the same value gives the same
/// text, or fails, every time. Nothing is claimed of what the text is.
#[verifier::external_body]
pub(crate) fn write_json(value: &serde_json::Value) -> (r: Result<String, serde_json::Error>)
    ensures
        match json_text(*value) {
            Some(t) => r matches Ok(s) && s@ == t,
            None => r is Err,
        },
{
    serde_json::to_string(value)
}

/// Calls `serde_json::from_str` to read one JSON value from a text. The claim
/// is only that the outcome is the one that `json_value` names: the same text
/// gives the same value, or fails, every time. Nothing is claimed of what the
/// value is, nor that reading undoes writing.
#[verifier::external_body]
pub(crate) fn parse_json(text: &str) -> (r: Result<serde_json::Value, serde_json::Error>)
    ensures
        match json_value(text@) {
            Some(v) => r matches Ok(x) && x == v,
            None => r is Err,
        },
{
    serde_json::from_str(text)
}

/// Calls `clone` on a JSON value: the copy equals the value.
#[verifier::external_body]
pub(crate) fn copy_json(value: &serde_json::Value) -> (r: serde_json::Value)
    ensures
        r == *value,
{
    value.clone()
}

} // verus!
