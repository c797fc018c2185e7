//! The encoders that come from outside: JSON strings and query-string pairs.

use vstd::prelude::*;

verus! {

/// `serde_json::Error`: what the JSON encoder fails with. Its inside is not
/// looked at.
#[verifier::external_type_specification]
#[verifier::external_body]
pub struct ExJsonError(serde_json::Error);

/// `serde_qs::Error`: what the query-string encoder fails with. Its inside is
/// not looked at.
#[verifier::external_type_specification]
#[verifier::external_body]
pub struct ExQueryError(serde_qs::Error);

/// The JSON encoding of a text: the quoted, escaped string literal, as
/// `serde_json` writes it.
pub uninterp spec fn json_string_bytes(s: Seq<char>) -> Seq<u8>;

/// The query-string encoding of one key and its value, as `serde_qs` writes
/// it under its default configuration.
pub uninterp spec fn query_pair_text(key: Seq<char>, value: Seq<char>) -> Seq<char>;

/// Encodes a text as a JSON string.
///
/// Trusted: `serde_json::to_vec` on a `str` depends on the text alone and does
/// not fail (it fails only where a `Serialize` impl fails or a map has a key
/// that is no string, and a `str` is neither).
#[verifier::external_body]
pub(crate) fn json_string(s: &str) -> (r: Result<Vec<u8>, serde_json::Error>)
    ensures
        r is Ok,
        r->Ok_0@ == json_string_bytes(s@),
{
    serde_json::to_vec(s)
}

/// Encodes one key and its value for a query string.
///
/// Trusted: `serde_qs::Config::serialize_string`, given a map with the one
/// entry `key` to `value`, depends on the two texts alone and does not fail.
/// A key fails only deeper than the configured nesting, and this one is at the
/// top; the output goes to a buffer in memory; and it is ASCII, a key being
/// kept only where it is ASCII and percent-encoded otherwise, as every value
/// is, so it is valid UTF-8.
#[verifier::external_body]
pub(crate) fn query_pair(key: &str, value: &str) -> (r: Result<String, serde_qs::Error>)
    ensures
        r is Ok,
        r->Ok_0@ == query_pair_text(key@, value@),
{
    let mut entry = std::collections::BTreeMap::new();
    entry.insert(key, value);
    serde_qs::Config::new().serialize_string(&entry)
}

} // verus!
