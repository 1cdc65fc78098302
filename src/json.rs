//! JSON and text conversions that this library takes from serde_json and std.
use vstd::prelude::*;
use vstd::utf8::{decode_utf8, valid_utf8};
use crate::frame::line_safe;

verus! {

#[verifier::external_type_specification]
#[verifier::external_body]
pub struct ExValue(serde_json::Value);

#[verifier::external_type_specification]
#[verifier::external_body]
pub struct ExJsonError(serde_json::Error);

/// A JSON-RPC message: a JSON document that this library carries and never
/// looks inside.
pub type JsonRpcMessage = serde_json::Value;

/// Whether serde_json reads the text as one JSON document.
pub uninterp spec fn json_accepts(s: Seq<char>) -> bool;

/// The compact JSON text that serde_json writes for a value.
pub uninterp spec fn json_text_of(v: serde_json::Value) -> Seq<u8>;

/// The value that serde_json reads from a text it accepts.
pub uninterp spec fn json_value_of(s: Seq<char>) -> serde_json::Value;

/// The text of the string member `key` of a JSON object, if it has one.
pub uninterp spec fn str_member(v: serde_json::Value, key: Seq<char>) -> Option<Seq<char>>;

/// What `String::from_utf8_lossy` makes of the bytes.
pub uninterp spec fn lossy_text(b: Seq<u8>) -> Seq<char>;

/// Relies on serde_json::to_vec: a `Value` has string keys only and a `Vec`
/// takes every write, so it succeeds; the compact writer puts no whitespace
/// between tokens and writes `\n` and `\r` inside strings as escapes, so the
/// output holds neither byte; it emits no invalid UTF-8.
#[verifier::external_body]
pub(crate) fn json_bytes(m: &serde_json::Value) -> (r: Result<Vec<u8>, serde_json::Error>)
    ensures
        r is Ok,
        r matches Ok(v) ==> v@ == json_text_of(*m) && line_safe(v@) && valid_utf8(v@),
{
    serde_json::to_vec(m)
}

/// Relies on serde_json::from_str::<Value>: whether it succeeds depends on the
/// text alone.
#[verifier::external_body]
pub(crate) fn json_parse(s: &str) -> (r: Result<serde_json::Value, serde_json::Error>)
    ensures
        r.is_ok() == json_accepts(s@),
        r matches Ok(v) ==> v == json_value_of(s@),
{
    serde_json::from_str::<serde_json::Value>(s)
}

/// Relies on serde_json::Value::get with a string key, then Value::as_str:
/// the text of the member of that name, when the value is an object that has
/// one and the member is a string.
#[verifier::external_body]
pub(crate) fn member_text<'a>(v: &'a serde_json::Value, key: &str) -> (r: Option<&'a str>)
    ensures
        r matches Some(s) ==> str_member(*v, key@) == Some(s@),
        r is None ==> str_member(*v, key@) is None,
{
    v.get(key).and_then(serde_json::Value::as_str)
}

/// Relies on String::from_utf8_lossy: valid UTF-8 comes back unchanged.
#[verifier::external_body]
pub(crate) fn text_of(b: &[u8]) -> (r: String)
    ensures
        r@ == lossy_text(b@),
        valid_utf8(b@) ==> r@ == decode_utf8(b@),
{
    String::from_utf8_lossy(b).into_owned()
}

} // verus!
