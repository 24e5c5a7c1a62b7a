//! Trusted surface over the `json` crate.
//!
//! The release descriptor and the instructions manifest arrive as JSON
//! text. Parsing is the outside crate's work; a parsed value is opaque
//! here, so these wrappers claim nothing about it. Every field read out
//! of a value is checked by the verified callers before it is used.
use vstd::prelude::*;

verus! {

/// The `json` crate's parsed value tree, opaque to verification.
#[verifier::external_type_specification]
#[verifier::external_body]
pub struct ExJsonValue(json::JsonValue);

/// The `json` crate's parse error, opaque to verification.
#[verifier::external_type_specification]
#[verifier::external_body]
pub struct ExJsonError(json::Error);

/// Relies on `json::parse`: parses source text into a JSON value tree.
#[verifier::external_body]
pub(crate) fn parse(text: &str) -> (r: Result<json::JsonValue, json::Error>) {
    json::parse(text)
}

/// Relies on `JsonValue`'s indexing by key: the member of an object
/// under the key, or the null value for anything else.
#[verifier::external_body]
pub(crate) fn get<'a>(v: &'a json::JsonValue, key: &str) -> (r: &'a json::JsonValue) {
    &v[key]
}

/// Relies on `JsonValue`'s indexing by position: the member of an array
/// at the position, or the null value for anything else.
#[verifier::external_body]
pub(crate) fn at<'a>(v: &'a json::JsonValue, i: usize) -> (r: &'a json::JsonValue) {
    &v[i]
}

/// Relies on `JsonValue::len`: the number of members of an array or
/// object, and zero for every other value.
#[verifier::external_body]
pub(crate) fn length(v: &json::JsonValue) -> usize {
    v.len()
}

/// Relies on `JsonValue::is_null`.
#[verifier::external_body]
pub(crate) fn is_null(v: &json::JsonValue) -> bool {
    v.is_null()
}

/// Relies on `JsonValue::as_str`: the contents of a string value, and
/// nothing for every other value.
#[verifier::external_body]
pub(crate) fn as_string(v: &json::JsonValue) -> Option<String> {
    v.as_str().map(|s| s.to_owned())
}

/// Relies on `JsonValue::as_u64`: the contents of a non-negative numeric
/// value that fits, and nothing otherwise.
#[verifier::external_body]
pub(crate) fn as_u64(v: &json::JsonValue) -> Option<u64> {
    v.as_u64()
}

/// Relies on `JsonValue::as_bool`: the contents of a boolean value, and
/// nothing for every other value.
#[verifier::external_body]
pub(crate) fn as_bool(v: &json::JsonValue) -> Option<bool> {
    v.as_bool()
}

} // verus!
