//! Reading fields of a job's JSON payload, through `serde_json`.
use vstd::prelude::*;
use crate::job::opt_str_view;

verus! {

/// The string member `key` of the JSON object in `payload`: `None` where the text
/// is not JSON, the member is missing, or it is not a string.
pub uninterp spec fn json_string_member(payload: Seq<char>, key: Seq<char>) -> Option<Seq<char>>;

/// The member `key` of the JSON object in `payload` as a `u64`: `None` where the
/// text is not JSON, the member is missing, or it is not a non-negative integer
/// that fits.
pub uninterp spec fn json_u64_member(payload: Seq<char>, key: Seq<char>) -> Option<u64>;

/// The JSON object in `payload` has a member `key` that is a number.
pub uninterp spec fn json_number_member(payload: Seq<char>, key: Seq<char>) -> bool;

/// `serde_json::from_str::<Value>(payload)`, then `get(key)` and `as_str()`;
/// text that does not parse reads as `Value::Null`, which has no members. The
/// result is named, not described: it is whatever serde_json yields.
#[verifier::external_body]
pub(crate) fn string_member(payload: &str, key: &str) -> (r: Option<String>)
    ensures
        opt_str_view(r) == json_string_member(payload@, key@),
{
    let parsed: Result<serde_json::Value, serde_json::Error> = serde_json::from_str(payload);
    match parsed {
        Ok(v) => match v.get(key) {
            Some(x) => match x.as_str() {
                Some(s) => Some(s.to_string()),
                None => None,
            },
            None => None,
        },
        Err(_) => None,
    }
}

/// `serde_json::from_str::<Value>(payload)`, then `get(key)` and `as_u64()`.
#[verifier::external_body]
pub(crate) fn u64_member(payload: &str, key: &str) -> (r: Option<u64>)
    ensures
        r == json_u64_member(payload@, key@),
{
    let parsed: Result<serde_json::Value, serde_json::Error> = serde_json::from_str(payload);
    match parsed {
        Ok(v) => match v.get(key) {
            Some(x) => x.as_u64(),
            None => None,
        },
        Err(_) => None,
    }
}

/// `serde_json::from_str::<Value>(payload)`, then `get(key)` and `is_number()`
/// (which is what `as_f64().is_some()` tests without serde_json's arbitrary
/// precision feature).
#[verifier::external_body]
pub(crate) fn number_member(payload: &str, key: &str) -> (r: bool)
    ensures
        r == json_number_member(payload@, key@),
{
    let parsed: Result<serde_json::Value, serde_json::Error> = serde_json::from_str(payload);
    match parsed {
        Ok(v) => match v.get(key) {
            Some(x) => x.is_number(),
            None => false,
        },
        Err(_) => false,
    }
}

} // verus!
