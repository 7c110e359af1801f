//! What the library reads of a JSON document. Decoding is left to
//! `serde_json`; the contracts here are taken on trust.

use vstd::prelude::*;

verus! {

/// `serde_json::Value`, a decoded JSON document. It is carried through
/// unopened.
#[verifier::external_type_specification]
#[verifier::external_body]
pub struct ExValue(serde_json::Value);

/// `serde_json::Error`, why a text was no JSON document. It is carried
/// through unopened.
#[verifier::external_type_specification]
#[verifier::external_body]
pub struct ExError(serde_json::Error);

/// The string members of a JSON document: where the document is an object,
/// each of its keys whose value is a string, with that string. A document
/// that is no object has none.
pub uninterp spec fn string_members(document: serde_json::Value) -> Map<Seq<char>, Seq<char>>;

/// The string members of the document that `bytes` spell out, or `None`
/// where `bytes` are not the text of one JSON document.
pub uninterp spec fn decoded_members(bytes: Seq<u8>) -> Option<Map<Seq<char>, Seq<char>>>;

/// Calls `serde_json::from_slice` for a `serde_json::Value`. Trusted, not
/// proved: whether the call succeeds, and which document it gives, depends
/// on the bytes alone. `decoded_members` names that outcome: `None` for an
/// error, else the string members of the document.
#[verifier::external_body]
pub(crate) fn decode(bytes: &[u8]) -> (outcome: Result<serde_json::Value, serde_json::Error>)
    ensures
        outcome matches Ok(document) ==> decoded_members(bytes@) == Some(string_members(document)),
        outcome is Err ==> decoded_members(bytes@) is None,
{
    serde_json::from_slice(bytes)
}

/// Indexes a `serde_json::Value` by a string key, as `document[key]` does,
/// and hands out a copy of the member where it is a JSON string. Trusted,
/// not proved: indexing gives the object's member of that key, and null for
/// a key that the object lacks or a document that is no object; it does not
/// panic.
#[verifier::external_body]
pub(crate) fn string_member(document: &serde_json::Value, key: &str) -> (member: Option<String>)
    ensures
        member is Some <==> string_members(*document).contains_key(key@),
        member matches Some(text) ==> text@ == string_members(*document)[key@],
{
    match &document[key] {
        serde_json::Value::String(text) => Some(text.clone()),
        _ => None,
    }
}

} // verus!
