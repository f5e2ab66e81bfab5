//! The trusted boundary to the JSON library. Everything the decoder takes
//! from serde_json passes through the handful of wrappers here. Each result
//! is a pure function of the wrapper's arguments, so it is given a name: the
//! wrappers' contracts say no more of the names than the library's source
//! shows, and the verified decoding decisions are made elsewhere, on the
//! plain values the wrappers hand back.

use vstd::prelude::*;

verus! {

/// serde_json's dynamically-typed JSON value. It is opaque to verification;
/// the decoder reads it only through the accessors below and decides nothing
/// on it directly.
#[verifier::external_type_specification]
#[verifier::external_body]
pub struct ExValue(serde_json::Value);

/// Whether a byte buffer is one well-formed JSON document. Parsing depends
/// on the bytes alone.
pub uninterp spec fn json_parses(bytes: Seq<u8>) -> bool;

/// The document a well-formed byte buffer parses to. Meaningful only where
/// `json_parses` holds.
pub uninterp spec fn json_doc(bytes: Seq<u8>) -> serde_json::Value;

/// The field a JSON value holds under a key: nothing when the value is no
/// object or has no such field.
pub uninterp spec fn json_field(v: serde_json::Value, key: Seq<char>) -> Option<
    serde_json::Value,
>;

/// The text a JSON value holds: nothing when it is not a string.
pub uninterp spec fn json_string(v: serde_json::Value) -> Option<Seq<char>>;

/// The integer a JSON value holds, when it is a number that is a
/// nonnegative integer fitting 64 bits: nothing otherwise.
pub uninterp spec fn json_integer(v: serde_json::Value) -> Option<u64>;

/// The elements a JSON value holds, in order: nothing when it is not an
/// array.
pub uninterp spec fn json_elements(v: serde_json::Value) -> Option<Seq<serde_json::Value>>;

/// Relies on serde_json::from_slice::<Value>: parses exactly one JSON
/// document from a byte buffer, or fails; the result depends on the bytes
/// alone. The error detail is dropped here; the caller maps the failure to
/// its own error value.
#[verifier::external_body]
pub(crate) fn parse_json(bytes: &[u8]) -> (r: Option<serde_json::Value>)
    ensures
        r is Some <==> json_parses(bytes@),
        r matches Some(v) ==> v == json_doc(bytes@),
{
    serde_json::from_slice(bytes).ok()
}

/// Relies on serde_json::Value::get: the field of a JSON object under the
/// key, or nothing when the value is no object or has no such field.
#[verifier::external_body]
pub(crate) fn json_get<'a>(v: &'a serde_json::Value, key: &str) -> (r: Option<
    &'a serde_json::Value,
>)
    ensures
        r is Some <==> json_field(*v, key@) is Some,
        r matches Some(f) ==> Some(*f) == json_field(*v, key@),
{
    v.get(key)
}

/// Relies on serde_json::Value::as_str: the text of a JSON string value, or
/// nothing when the value is not a string.
#[verifier::external_body]
pub(crate) fn json_as_string(v: &serde_json::Value) -> (r: Option<String>)
    ensures
        r is Some <==> json_string(*v) is Some,
        r matches Some(s) ==> Some(s@) == json_string(*v),
{
    v.as_str().map(|t| t.to_owned())
}

/// Relies on serde_json::Value::as_u64: the value of a JSON number that is a
/// nonnegative integer fitting 64 bits, or nothing otherwise.
#[verifier::external_body]
pub(crate) fn json_as_u64(v: &serde_json::Value) -> (r: Option<u64>)
    ensures
        r == json_integer(*v),
{
    v.as_u64()
}

/// Relies on serde_json::Value::as_array: the elements of a JSON array, in
/// order, or nothing when the value is not an array.
#[verifier::external_body]
pub(crate) fn json_as_array<'a>(v: &'a serde_json::Value) -> (r: Option<
    &'a Vec<serde_json::Value>,
>)
    ensures
        r is Some <==> json_elements(*v) is Some,
        r matches Some(a) ==> Some(a@) == json_elements(*v),
{
    v.as_array()
}

} // verus!
