//! Trusted boundary around `serde_json`.  Inbound frames arrive as one JSON
//! value per line; the session only ever reads a handful of fields out of
//! such a value.  The value itself is opaque to verification, so each read
//! is a thin wrapper whose result is handed to verified code as a plain
//! `Option` of a plain value.

use vstd::prelude::*;

verus! {

#[verifier::external_type_specification]
#[verifier::external_body]
pub struct ExValue(serde_json::Value);

#[verifier::external_type_specification]
#[verifier::external_body]
pub struct ExJsonError(serde_json::Error);

/// Relies on `serde_json::from_str`: parses one line of text as a JSON value,
/// or reports a parse error.
#[verifier::external_body]
pub(crate) fn json_parse(line: &str) -> (r: Result<serde_json::Value, serde_json::Error>) {
    serde_json::from_str::<serde_json::Value>(line)
}

/// Relies on the `Display` impl of `serde_json::Error`: renders the parse
/// error as text.
#[verifier::external_body]
pub(crate) fn json_error_message(e: &serde_json::Error) -> (r: String) {
    format!("{e}")
}

/// Relies on `serde_json::Value::get`: the member of an object under `key`,
/// if the value is an object with that member.
#[verifier::external_body]
pub(crate) fn json_get<'a>(v: &'a serde_json::Value, key: &str) -> (r: Option<&'a serde_json::Value>) {
    v.get(key)
}

/// Relies on `serde_json::Value::as_str`: the text of a JSON string value.
#[verifier::external_body]
pub(crate) fn json_as_str<'a>(v: &'a serde_json::Value) -> (r: Option<&'a str>) {
    v.as_str()
}

/// Relies on `serde_json::Value::as_i64`: the value of a JSON integer that
/// fits in an `i64`.
#[verifier::external_body]
pub(crate) fn json_as_i64(v: &serde_json::Value) -> (r: Option<i64>) {
    v.as_i64()
}

/// Relies on `serde_json::Value::as_bool`: the value of a JSON boolean.
#[verifier::external_body]
pub(crate) fn json_as_bool(v: &serde_json::Value) -> (r: Option<bool>) {
    v.as_bool()
}

/// Relies on `serde_json::Value::as_array`: the elements of a JSON array.
#[verifier::external_body]
pub(crate) fn json_as_array<'a>(v: &'a serde_json::Value) -> (r: Option<&'a Vec<serde_json::Value>>) {
    v.as_array()
}

/// Relies on the `Display` impl of `serde_json::Value`: renders the value
/// back as compact JSON text (a JSON string renders with its quotes).
#[verifier::external_body]
pub(crate) fn json_render(v: &serde_json::Value) -> (r: String) {
    format!("{v}")
}

/// Relies on `Clone` for `serde_json::Value`: an owned copy of the value.
#[verifier::external_body]
pub(crate) fn json_clone(v: &serde_json::Value) -> (r: serde_json::Value) {
    v.clone()
}

} // verus!
