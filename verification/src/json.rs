//! Trusted declarations for reading the manifest's JSON document.
//!
//! serde_json's parse and field lookups depend on the document text alone,
//! so what each lookup yields is given a name over that text, and the
//! wrappers here promise exactly those named results. The manifest module
//! then carries a full contract over the names.

use vstd::prelude::*;

verus! {

/// The text is a well-formed JSON document, as serde_json's parser accepts
/// it.
pub uninterp spec fn json_doc_ok(body: Seq<char>) -> bool;

/// The string under `key` at the top level of the document: `None` when
/// the text is not well-formed JSON, is not an object, has no entry under
/// the key, or holds a non-string there.
pub uninterp spec fn json_str_field_of(body: Seq<char>, key: Seq<char>) -> Option<Seq<char>>;

/// The unsigned 64-bit number under `key` at the top level of the
/// document: `None` when the text is not well-formed JSON, is not an
/// object, has no entry under the key, or holds anything but such a number
/// there.
pub uninterp spec fn json_u64_field_of(body: Seq<char>, key: Seq<char>) -> Option<u64>;

/// Relies on serde_json::from_str::<Value>: it succeeds exactly on a
/// well-formed JSON document. The parse error is reduced to its message,
/// whose text is not specified.
#[verifier::external_body]
pub fn json_doc_error(body: &str) -> (r: Option<String>)
    ensures
        r is Some <==> !json_doc_ok(body@),
{
    match serde_json::from_str::<serde_json::Value>(body) {
        Ok(_) => None,
        Err(e) => Some(format!("{}", e)),
    }
}

/// Relies on serde_json::from_str::<Value>, Value::get and Value::as_str:
/// their composition depends on the document text and the key alone.
#[verifier::external_body]
pub fn json_str_field(body: &str, key: &str) -> (r: Option<String>)
    ensures
        match r {
            Some(s) => json_str_field_of(body@, key@) == Some(s@),
            None => json_str_field_of(body@, key@) is None,
        },
{
    match serde_json::from_str::<serde_json::Value>(body) {
        Ok(v) => match v.get(key) {
            Some(x) => match x.as_str() {
                Some(s) => Some(s.to_owned()),
                None => None,
            },
            None => None,
        },
        Err(_) => None,
    }
}

/// Relies on serde_json::from_str::<Value>, Value::get and Value::as_u64:
/// their composition depends on the document text and the key alone.
#[verifier::external_body]
pub fn json_u64_field(body: &str, key: &str) -> (r: Option<u64>)
    ensures
        r == json_u64_field_of(body@, key@),
{
    match serde_json::from_str::<serde_json::Value>(body) {
        Ok(v) => match v.get(key) {
            Some(x) => x.as_u64(),
            None => None,
        },
        Err(_) => None,
    }
}

} // verus!
