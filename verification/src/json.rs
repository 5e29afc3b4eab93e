//! Single values out of JSON texts, with the reader of the `serde_json` crate.
use vstd::prelude::*;
use crate::domain::opt_text;

verus! {

/// Whether `serde_json` reads a text as an object with something at this key; none for a text that
/// is no JSON.
pub uninterp spec fn key_in_json(body: Seq<u8>, key: Seq<char>) -> Option<bool>;

/// The string that `serde_json` reads at this key of a text, where one stands there; none for a
/// text that is no JSON.
pub uninterp spec fn text_in_json(body: Seq<u8>, key: Seq<char>) -> Option<Option<Seq<char>>>;

/// The whole number that `serde_json` reads at this key of a text, where one that fits stands
/// there; none for a text that is no JSON.
pub uninterp spec fn integer_in_json(body: Seq<u8>, key: Seq<char>) -> Option<Option<i64>>;

/// The count that `serde_json` reads at this key of a text, where one that fits stands there; none
/// for a text that is no JSON.
pub uninterp spec fn count_in_json(body: Seq<u8>, key: Seq<char>) -> Option<Option<u64>>;

/// The string that `serde_json` reads at the key `inner` of what stands at the key `outer` of a
/// text, where one stands there; none for a text that is no JSON.
pub uninterp spec fn inner_text_in_json(
    body: Seq<char>,
    outer: Seq<char>,
    inner: Seq<char>,
) -> Option<Option<Seq<char>>>;

/// A text that may be missing, out of something that may be unreadable.
pub open spec fn maybe_text(text: Option<Option<String>>) -> Option<Option<Seq<char>>> {
    match text {
        Some(found) => Some(opt_text(found)),
        None => None,
    }
}

/// Calls `serde_json::from_slice` for a `serde_json::Value`, and `get` on it.
#[verifier::external_body]
pub(crate) fn has_key(body: &[u8], key: &str) -> (r: Option<bool>)
    ensures
        r == key_in_json(body@, key@),
{
    let value = serde_json::from_slice::<serde_json::Value>(body).ok()?;
    Some(value.get(key).is_some())
}

/// Calls `serde_json::from_slice` for a `serde_json::Value`, and `as_str` on what it has at the key.
#[verifier::external_body]
pub(crate) fn text_at(body: &[u8], key: &str) -> (r: Option<Option<String>>)
    ensures
        maybe_text(r) == text_in_json(body@, key@),
{
    let value = serde_json::from_slice::<serde_json::Value>(body).ok()?;
    Some(value[key].as_str().map(|text| text.to_owned()))
}

/// Calls `serde_json::from_slice` for a `serde_json::Value`, and `as_i64` on what it has at the key.
#[verifier::external_body]
pub(crate) fn integer_at(body: &[u8], key: &str) -> (r: Option<Option<i64>>)
    ensures
        r == integer_in_json(body@, key@),
{
    let value = serde_json::from_slice::<serde_json::Value>(body).ok()?;
    Some(value[key].as_i64())
}

/// Calls `serde_json::from_slice` for a `serde_json::Value`, and `as_u64` on what it has at the key.
#[verifier::external_body]
pub(crate) fn count_at(body: &[u8], key: &str) -> (r: Option<Option<u64>>)
    ensures
        r == count_in_json(body@, key@),
{
    let value = serde_json::from_slice::<serde_json::Value>(body).ok()?;
    Some(value[key].as_u64())
}

/// Calls `serde_json::from_str` for a `serde_json::Value`, and `as_str` on what it has at the one
/// key and in that at the other.
#[verifier::external_body]
pub(crate) fn inner_text_at(body: &str, outer: &str, inner: &str) -> (r: Option<Option<String>>)
    ensures
        maybe_text(r) == inner_text_in_json(body@, outer@, inner@),
{
    let value = serde_json::from_str::<serde_json::Value>(body).ok()?;
    Some(value[outer][inner].as_str().map(|text| text.to_owned()))
}

} // verus!
