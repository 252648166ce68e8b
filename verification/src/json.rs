//! The boundary to the generic JSON library.
//!
//! Result payloads and error data are carried through this crate as opaque
//! `serde_json::Value` trees; nothing in the correlation logic reads inside
//! them.  The items here declare the outside types and wrap the few calls
//! the logic makes into `serde_json`.

use vstd::prelude::*;

use crate::error::DecodeError;

verus! {

#[verifier::external_type_specification]
#[verifier::external_body]
pub struct ExValue(serde_json::Value);

/// Relies on `serde_json::Value::clone` (a derived structural clone): the
/// clone is the same JSON value as the original.
#[verifier::external_body]
pub(crate) fn clone_value(v: &serde_json::Value) -> (r: serde_json::Value)
    ensures
        r == *v,
{
    v.clone()
}

/// Relies on `serde_json::from_value`, which decodes a JSON value into any
/// type implementing serde's `Deserialize`.  An absent payload is decoded
/// as JSON null, which is how the protocol represents a null result.
/// Whether decoding succeeds depends on `T`'s deserializer, so nothing is
/// promised of the outcome; a failure comes back with its cause rendered.
#[verifier::external_body]
pub(crate) fn decode_value<T: serde::de::DeserializeOwned>(v: Option<serde_json::Value>) -> (r: Result<
    T,
    DecodeError,
>) {
    match serde_json::from_value(v.unwrap_or(serde_json::Value::Null)) {
        Ok(t) => Ok(t),
        Err(e) => Err(DecodeError { message: e.to_string() }),
    }
}

/// Relies on `serde::Deserialize::deserialize` with a borrowed
/// `serde_json::Value` as the deserializer, the borrowing counterpart of
/// [`decode_value`].  An absent payload is decoded as JSON null.
#[verifier::external_body]
pub(crate) fn decode_value_ref<T: serde::de::DeserializeOwned>(
    v: Option<&serde_json::Value>,
) -> (r: Result<T, DecodeError>) {
    match T::deserialize(v.unwrap_or(&serde_json::Value::Null)) {
        Ok(t) => Ok(t),
        Err(e) => Err(DecodeError { message: e.to_string() }),
    }
}

} // verus!
