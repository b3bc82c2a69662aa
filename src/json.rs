//! JSON documents, read through serde_json.
use vstd::prelude::*;

verus! {

/// Whether `text` is one well-formed JSON document, as `serde_json::from_str`
/// decides it.
pub uninterp spec fn json_parses(text: Seq<char>) -> bool;

/// The string stored under `key` in the JSON object `text`, as serde_json
/// reads it; nothing when `text` is not JSON, not an object, or holds no
/// string there.
pub uninterp spec fn json_string_at(text: Seq<char>, key: Seq<char>) -> Option<Seq<char>>;

/// The view of an optional string.
pub open spec fn opt_view(o: Option<String>) -> Option<Seq<char>> {
    match o {
        Some(s) => Some(s@),
        None => None,
    }
}

/// Relies on `serde_json::from_str` into a `serde_json::Value`: it succeeds
/// exactly on well-formed JSON, which depends on the text alone.
#[verifier::external_body]
pub(crate) fn is_json(text: &str) -> (r: bool)
    ensures
        r == json_parses(text@),
{
    serde_json::from_str::<serde_json::Value>(text).is_ok()
}

/// Relies on `serde_json::from_str` into a `serde_json::Value`, then
/// `serde_json::Value::get` with a string key and
/// `serde_json::Value::as_str`: the string under `key`, which depends on
/// the text and the key alone.
#[verifier::external_body]
pub(crate) fn string_field(text: &str, key: &str) -> (r: Option<String>)
    ensures
        opt_view(r) == json_string_at(text@, key@),
{
    match serde_json::from_str::<serde_json::Value>(text) {
        Ok(doc) => match doc.get(key) {
            Some(v) => match v.as_str() {
                Some(s) => Some(s.to_string()),
                None => None,
            },
            None => None,
        },
        Err(_) => None,
    }
}

} // verus!
