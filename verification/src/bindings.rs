//! Calls into std and outside crates whose results the library reads.
//!
//! Every function here is trusted: Verus believes its contract and does not
//! read its body.  Each doc comment says which outside function is called and
//! what the contract claims of it.
use vstd::prelude::*;
use vstd::utf8::*;

verus! {

/// The text that `String::from_utf8_lossy` produces for `bytes`: every
/// maximal ill-formed subsequence replaced by U+FFFD.
pub uninterp spec fn utf8_lossy(bytes: Seq<u8>) -> Seq<char>;

/// Calls `String::from_utf8_lossy`.  Claims that the result depends on the
/// bytes alone (it is `utf8_lossy(bytes)`), and, as std documents, that
/// valid UTF-8 is returned as the text it encodes.
#[verifier::external_body]
pub(crate) fn lossy_utf8_string(bytes: &[u8]) -> (text: String)
    ensures
        text@ == utf8_lossy(bytes@),
        valid_utf8(bytes@) ==> text@ == decode_utf8(bytes@),
{
    String::from_utf8_lossy(bytes).into_owned()
}

/// Calls `std::str::from_utf8`.  Claims that it succeeds exactly on valid
/// UTF-8 (as vstd's `valid_utf8` defines it) and then yields the decoded text.
#[verifier::external_body]
pub(crate) fn strict_utf8_string(bytes: &[u8]) -> (text: Option<String>)
    ensures
        text is Some <==> valid_utf8(bytes@),
        text matches Some(t) ==> t@ == decode_utf8(bytes@),
{
    match std::str::from_utf8(bytes) {
        Ok(s) => Some(s.to_string()),
        Err(_) => None,
    }
}

/// What serde_json reads from the JSON document `text` at member `key`:
/// `Some(s)` when `serde_json::from_str::<Value>` accepts `text` and
/// `Value::get(key)` finds a string `s` there, `None` otherwise.
pub uninterp spec fn json_string_member(text: Seq<char>, key: Seq<char>) -> Option<Seq<char>>;

/// Calls `serde_json::from_str::<serde_json::Value>` and then
/// `Value::get(key)`, keeping the member only when it is a JSON string.
/// Claims that the outcome depends on `text` and `key` alone; nothing is
/// stated of which documents parse.
#[verifier::external_body]
pub(crate) fn json_string_field(text: &str, key: &str) -> (member: Option<String>)
    ensures
        member matches Some(m) ==> json_string_member(text@, key@) == Some(m@),
        member is None ==> json_string_member(text@, key@) is None,
{
    match serde_json::from_str::<serde_json::Value>(text) {
        Ok(value) => match value.get(key) {
            Some(serde_json::Value::String(s)) => Some(s.clone()),
            _ => None,
        },
        Err(_) => None,
    }
}

/// What `base64::decode` (the standard alphabet, canonical padding) yields
/// for `text`: the decoded bytes, or `None` when it reports an error.
pub uninterp spec fn base64_standard_decoding(text: Seq<char>) -> Option<Seq<u8>>;

/// Calls `base64::decode`.  Claims only that the outcome depends on `text`
/// alone.
#[verifier::external_body]
#[allow(deprecated)]
pub(crate) fn base64_decode(text: &str) -> (bytes: Option<Vec<u8>>)
    ensures
        bytes matches Some(b) ==> base64_standard_decoding(text@) == Some(b@),
        bytes is None ==> base64_standard_decoding(text@) is None,
{
    match base64::decode(text) {
        Ok(b) => Some(b),
        Err(_) => None,
    }
}

/// A byte that `http::HeaderValue::from_str` accepts: tab, or any byte from
/// 32 up except DEL (127).
pub open spec fn header_value_byte_allowed(b: u8) -> bool {
    (32 <= b && b != 127) || b == 9
}

/// Every UTF-8 byte of `text` is one that `HeaderValue::from_str` accepts.
pub open spec fn header_value_allowed(text: Seq<char>) -> bool {
    forall|i: int|
        0 <= i < encode_utf8(text).len() ==> header_value_byte_allowed(
            #[trigger] encode_utf8(text)[i],
        )
}

/// Calls `reqwest::header::HeaderValue::from_str`.  Claims, as the source of
/// `http` shows (`is_valid` checked on every byte of the text), that it
/// succeeds exactly when every UTF-8 byte of `text` is allowed.
#[verifier::external_body]
pub(crate) fn header_value_accepts(text: &str) -> (ok: bool)
    ensures
        ok == header_value_allowed(text@),
{
    reqwest::header::HeaderValue::from_str(text).is_ok()
}

} // verus!
