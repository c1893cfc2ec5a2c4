//! Trusted surface over `serde_json`'s document model.
//!
//! JSON parsing is done by `serde_json`; a parsed document is opaque
//! here. Each module that reads JSON carries one small trusted reader
//! that projects a document into that module's plain-value type, with a
//! contract over an uninterpreted name of the bytes — parsing is a
//! function of the bytes alone, so the projected fields can be named and
//! every decision on them is then verified. The member projections below
//! are the shared building blocks of those readers.

use vstd::prelude::*;

verus! {

#[verifier::external_type_specification]
#[verifier::external_body]
pub struct ExValue(serde_json::Value);

/// Whether `serde_json` accepts `b` as a JSON document; parsing is a
/// function of the bytes alone.
pub uninterp spec fn json_accepts(b: Seq<u8>) -> bool;

/// Relies on `serde_json::from_slice::<Value>`: parses a complete JSON
/// document from bytes, accepting or rejecting on the bytes alone; a
/// rejection carries the parser's error text.
#[verifier::external_body]
pub fn json_parse(b: &[u8]) -> (r: Result<serde_json::Value, String>)
    ensures
        r.is_ok() == json_accepts(b@),
{
    match serde_json::from_slice::<serde_json::Value>(b) {
        Ok(v) => Ok(v),
        Err(e) => Err(e.to_string()),
    }
}

/// Optional string member of an object: an absent member stays absent,
/// and a present member that is not a string fails the read.
///
/// Relies on `serde_json::Value::get` and `Value::as_str`.
#[verifier::external_body]
pub(crate) fn member_str(v: &serde_json::Value, key: &str) -> (r: Option<Option<String>>) {
    match v.get(key) {
        None => Some(None),
        Some(x) => Some(Some(x.as_str()?.to_string())),
    }
}

/// Optional unsigned member of an object: an absent member stays absent,
/// and a present member that is not a non-negative 64-bit integer fails
/// the read.
///
/// Relies on `serde_json::Value::get` and `Value::as_u64`.
#[verifier::external_body]
pub(crate) fn member_u64(v: &serde_json::Value, key: &str) -> (r: Option<Option<u64>>) {
    match v.get(key) {
        None => Some(None),
        Some(x) => Some(Some(x.as_u64()?)),
    }
}

/// Optional counter member of an object: as [`member_u64`], and a present
/// value must also fit a 32-bit counter.
///
/// Relies on `serde_json::Value::get` and `Value::as_u64`.
#[verifier::external_body]
pub(crate) fn member_u32(v: &serde_json::Value, key: &str) -> (r: Option<Option<u32>>) {
    match v.get(key) {
        None => Some(None),
        Some(x) => Some(Some(u32::try_from(x.as_u64()?).ok()?)),
    }
}

/// Optional boolean member of an object: an absent member stays absent,
/// and a present member that is not a boolean fails the read.
///
/// Relies on `serde_json::Value::get` and `Value::as_bool`.
#[verifier::external_body]
pub(crate) fn member_bool(v: &serde_json::Value, key: &str) -> (r: Option<Option<bool>>) {
    match v.get(key) {
        None => Some(None),
        Some(x) => Some(Some(x.as_bool()?)),
    }
}

} // verus!
