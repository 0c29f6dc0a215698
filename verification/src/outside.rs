//! The calls into outside crates. What these items claim is believed, not proved.

use serde_json::Value;
use vstd::prelude::*;

use crate::json::{Json, JsonView, Number};

verus! {

/// A value parsed by `serde_json`.
#[verifier::external_type_specification]
#[verifier::external_body]
pub struct ExValue(Value);

/// The JSON value that a `serde_json::Value` holds.
pub uninterp spec fn value_content(value: Value) -> JsonView;

/// What `serde_json::from_slice` makes of `bytes` when it reads them as a
/// `serde_json::Value`, or `None` where they are not one JSON text.
pub uninterp spec fn parsed_json(bytes: Seq<u8>) -> Option<JsonView>;

/// Calls `serde_json::from_slice`, which reads one JSON text from `bytes`. Claims that
/// whether it succeeds, and the value it reads, depend on the bytes alone. Which bytes are
/// JSON, and how deep a text may nest, is left to the crate.
#[verifier::external_body]
pub(crate) fn read_value(bytes: &[u8]) -> (res: Option<Value>)
    ensures
        parsed_json(bytes@) == (match res {
            Some(value) => Some(value_content(value)),
            None => None,
        }),
{
    serde_json::from_slice::<Value>(bytes).ok()
}

/// Takes a `serde_json::Value` apart, variant by variant. Claims that the result is the
/// JSON value it holds. A number is held in one of three ways: `as_u64` gives those held as an
/// integer that is not negative, `as_i64` then those held as a negative one, and `as_f64` those
/// held as a double.
#[verifier::external_body]
pub(crate) fn json_of(value: Value) -> (res: Json)
    ensures
        res@ == value_content(value),
{
    match value {
        Value::Null => Json::Null,
        Value::Bool(value) => Json::Bool(value),
        Value::Number(n) => Json::Number(match (n.as_u64(), n.as_i64()) {
            (Some(whole), _) => Number::Unsigned(whole),
            (None, Some(whole)) => Number::Negative(whole),
            (None, None) => Number::Double(n.as_f64().unwrap_or_default().to_bits()),
        }),
        Value::String(text) => Json::String(text),
        Value::Array(items) => Json::Array(items.into_iter().map(json_of).collect()),
        Value::Object(fields) => {
            Json::Object(fields.into_iter().map(|(name, value)| (name, json_of(value))).collect())
        },
    }
}

/// The SHA-256 digest of `bytes`.
pub uninterp spec fn sha256_digest(bytes: Seq<u8>) -> Seq<u8>;

/// Calls `sha2`'s `Sha256::digest`. Claims that the digest depends on the bytes alone.
#[verifier::external_body]
pub(crate) fn sha256(bytes: &[u8]) -> (res: [u8; 32])
    ensures
        res@ == sha256_digest(bytes@),
{
    <sha2::Sha256 as sha2::Digest>::digest(bytes).into()
}

/// The bytes that `HeaderValue::to_str` takes for visible: those of ASCII from the space on,
/// and the tab.
pub open spec fn visible(byte: u8) -> bool {
    32 <= byte < 127 || byte == 9
}

/// Calls `HeaderValue::to_str` of the `http` crate, which `axum` hands on, on the header
/// value of these bytes. Claims that it gives the bytes as text where all of them are
/// visible, and nothing otherwise.
#[verifier::external_body]
pub(crate) fn header_text(value: &[u8]) -> (res: Option<String>)
    ensures
        res is Some <==> (forall|i: int| 0 <= i < value@.len() ==> visible(#[trigger] value@[i])),
        res matches Some(text) ==> text@ == value@.map_values(|byte: u8| byte as char),
{
    let value = axum::http::HeaderValue::from_bytes(value).ok()?;
    value.to_str().ok().map(|text| text.to_string())
}

} // verus!
