//! Reading members of a JSON payload through serde_json.
//!
//! What serde_json reads from a document is a function of the document's text
//! alone; each reader below names that result.

use vstd::prelude::*;

verus! {

/// Whether serde_json reads `text` as one JSON document.
pub uninterp spec fn json_parses(text: Seq<char>) -> bool;

/// The integer that serde_json reads as member `key` of the object in `text`
/// (`Value::get` then `Value::as_i64`).
pub uninterp spec fn json_int_member(text: Seq<char>, key: Seq<char>) -> Option<i64>;

/// The unsigned integer that serde_json reads as member `key` of the object in
/// `text` (`Value::get` then `Value::as_u64`).
pub uninterp spec fn json_uint_member(text: Seq<char>, key: Seq<char>) -> Option<u64>;

/// The string that serde_json reads as member `key` of the object in `text`
/// (`Value::get` then `Value::as_str`).
pub uninterp spec fn json_text_member(text: Seq<char>, key: Seq<char>) -> Option<Seq<char>>;

/// Relies on `serde_json::from_str::<Value>`: whether `text` parses.
#[verifier::external_body]
pub(crate) fn parses(text: &str) -> (r: bool)
    ensures
        r == json_parses(text@),
{
    serde_json::from_str::<serde_json::Value>(text).is_ok()
}

/// Relies on `serde_json::from_str::<Value>`, `Value::get` and `Value::as_i64`:
/// the integer member `key` of the document in `text`.
#[verifier::external_body]
pub(crate) fn member_int(text: &str, key: &str) -> (r: Option<i64>)
    ensures
        r == json_int_member(text@, key@),
{
    match serde_json::from_str::<serde_json::Value>(text) {
        Ok(v) => match v.get(key) {
            Some(m) => m.as_i64(),
            None => None,
        },
        Err(_) => None,
    }
}

/// Relies on `serde_json::from_str::<Value>`, `Value::get` and `Value::as_u64`:
/// the unsigned integer member `key` of the document in `text`.
#[verifier::external_body]
pub(crate) fn member_uint(text: &str, key: &str) -> (r: Option<u64>)
    ensures
        r == json_uint_member(text@, key@),
{
    match serde_json::from_str::<serde_json::Value>(text) {
        Ok(v) => match v.get(key) {
            Some(m) => m.as_u64(),
            None => None,
        },
        Err(_) => None,
    }
}

/// Relies on `serde_json::from_str::<Value>`, `Value::get` and `Value::as_str`:
/// the string member `key` of the document in `text`.
#[verifier::external_body]
pub(crate) fn member_text(text: &str, key: &str) -> (r: Option<String>)
    ensures
        r matches Some(s) ==> json_text_member(text@, key@) == Some(s@),
        r is None ==> json_text_member(text@, key@) is None,
{
    match serde_json::from_str::<serde_json::Value>(text) {
        Ok(v) => match v.get(key) {
            Some(m) => match m.as_str() {
                Some(s) => Some(s.to_string()),
                None => None,
            },
            None => None,
        },
        Err(_) => None,
    }
}

} // verus!
