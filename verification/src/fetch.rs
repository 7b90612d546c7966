//! Decoding feed bodies into observations. The JSON parse itself is the
//! work of an outside crate; what each body's relevant field holds is given
//! a name, and everything after the extraction is verified against it.
use vstd::prelude::*;
use crate::decimal::{cents_of_text, parse_price_cents};
use crate::observation::FetchError;

verus! {

/// The unsigned `height` field of a chain-height feed body, if the body is
/// JSON with one.
pub uninterp spec fn height_field(body: Seq<u8>) -> Option<u64>;

/// The number under `bitcoin.usd` of a price feed body, printed back as
/// decimal text, if the body is JSON with one.
pub uninterp spec fn price_field_text(body: Seq<u8>) -> Option<Seq<u8>>;

/// Relies on serde_json::from_slice and Value::get / Value::as_u64: parsing
/// a byte body and looking up its "height" field is a function of the bytes
/// alone.
#[verifier::external_body]
fn extract_height_field(body: &[u8]) -> (r: Option<u64>)
    ensures
        r == height_field(body@),
{
    match serde_json::from_slice::<serde_json::Value>(body) {
        Ok(v) => v.get("height").and_then(serde_json::Value::as_u64),
        Err(_) => None,
    }
}

/// Relies on serde_json::from_slice, Value::get and Number's display:
/// the "bitcoin.usd" number of a byte body, printed back as decimal text,
/// is a function of the bytes alone.
#[verifier::external_body]
fn extract_price_field(body: &[u8]) -> (r: Option<Vec<u8>>)
    ensures
        r is Some <==> price_field_text(body@) is Some,
        r matches Some(t) ==> price_field_text(body@) == Some(t@),
{
    let v: serde_json::Value = match serde_json::from_slice(body) {
        Ok(v) => v,
        Err(_) => return None,
    };
    match v.get("bitcoin").and_then(|b| b.get("usd")) {
        Some(serde_json::Value::Number(n)) => Some(n.to_string().into_bytes()),
        _ => None,
    }
}

/// What a chain-height body decodes to: its `height` field, or a decode
/// error when the body has none.
pub open spec fn height_decode(body: Seq<u8>) -> Result<u64, FetchError> {
    match height_field(body) {
        Some(h) => Ok(h),
        None => Err(FetchError::DecodeError),
    }
}

/// What a price body decodes to: its `bitcoin.usd` number read as cents, or
/// a decode error when the body has no such number or the number is outside
/// the canonical decimal forms.
pub open spec fn price_decode(body: Seq<u8>) -> Result<u64, FetchError> {
    match price_field_text(body) {
        Some(t) => match cents_of_text(t) {
            Some(c) => Ok(c),
            None => Err(FetchError::DecodeError),
        },
        None => Err(FetchError::DecodeError),
    }
}

/// Extracts the single scalar of a chain-height feed body.
pub fn decode_height_body(body: &[u8]) -> (r: Result<u64, FetchError>)
    ensures
        r == height_decode(body@),
{
    match extract_height_field(body) {
        Some(h) => Ok(h),
        None => Err(FetchError::DecodeError),
    }
}

/// Extracts the single scalar of a price feed body, as cents.
pub fn decode_price_body(body: &[u8]) -> (r: Result<u64, FetchError>)
    ensures
        r == price_decode(body@),
{
    match extract_price_field(body) {
        Some(t) => match parse_price_cents(t.as_slice()) {
            Some(c) => Ok(c),
            None => Err(FetchError::DecodeError),
        },
        None => Err(FetchError::DecodeError),
    }
}

} // verus!
