//! Client-side correlation logic for the JSON-RPC 2.0 protocol:
//! uniquely identified requests, validation of single responses against the
//! requests that produced them, reconciliation of unordered response
//! batches, and extraction of typed results or structured errors.
//!
//! The wire transport and the JSON text encoding are external
//! collaborators; this crate works on already-decoded request and response
//! values.

use vstd::prelude::*;

pub mod batch;
pub mod client;
pub mod error;
pub mod ident;
mod json;

pub use client::Client;
pub use error::DecodeError;
pub use error::Error;
pub use error::RpcError;
pub use ident::Id;

use crate::json::decode_value;
use crate::json::decode_value_ref;

verus! {

/// A JSON-RPC request object.  Built by [`Client::build_request`],
/// serialized and sent by the transport, never mutated.
#[derive(Debug, Clone, PartialEq)]
pub struct Request {
    /// Name of the method to invoke.
    pub method: String,
    /// Positional parameters, carried through as opaque JSON values.
    pub params: Vec<serde_json::Value>,
    /// The identifier the response must echo.
    pub id: Id,
    /// Protocol version marker; always "2.0" when built by this client.
    pub jsonrpc: Option<String>,
}

/// A JSON-RPC response object as decoded from the wire.
///
/// `result` and `error` are mutually exclusive by protocol contract, but
/// the data model does not enforce this; extraction checks it contextually.
/// Absence of both stands for a null result.
#[derive(Debug, Clone, PartialEq)]
pub struct Response {
    /// The result payload, if the call succeeded.
    pub result: Option<serde_json::Value>,
    /// The structured error, if the server reported one.
    pub error: Option<RpcError>,
    /// Echo of the originating request's id, or null if the server could
    /// not parse the request.
    pub id: Id,
    /// Protocol version marker; may be absent on lenient servers.
    pub jsonrpc: Option<String>,
}

/// What result extraction returns for each outcome of the JSON decoder: a
/// decoded value is handed through, a decoding failure becomes
/// [`Error::Json`] wrapping the cause.
pub fn decoded_to_result<T>(d: Result<T, DecodeError>) -> (r: Result<T, Error>)
    ensures
        d matches Ok(t) ==> r == Ok::<T, Error>(t),
        d matches Err(e) ==> r == Err::<T, Error>(Error::Json(e)),
{
    match d {
        Ok(t) => Ok(t),
        Err(e) => Err(Error::Json(e)),
    }
}

impl Response {
    /// Extract the result without consuming the response.
    ///
    /// A set `error` field always wins over `result`: it comes back as
    /// [`Error::Rpc`] carrying the server's error unchanged.  Otherwise the
    /// payload (absent treated as JSON null) is decoded into `T`; a
    /// decoding failure comes back as [`Error::Json`].
    pub fn result<T: serde::de::DeserializeOwned>(&self) -> (r: Result<T, Error>)
        ensures
            self.error matches Some(e) ==> r == Err::<T, Error>(Error::Rpc(e)),
            self.error is None ==> (r is Ok || (r matches Err(e) && e is Json)),
    {
        if let Some(e) = &self.error {
            return Err(Error::Rpc(e.clone()));
        }
        decoded_to_result(decode_value_ref::<T>(self.result.as_ref()))
    }

    /// Extract the result, consuming the response.  Decides exactly as
    /// [`Response::result`] does.
    pub fn into_result<T: serde::de::DeserializeOwned>(self) -> (r: Result<T, Error>)
        ensures
            self.error matches Some(e) ==> r == Err::<T, Error>(Error::Rpc(e)),
            self.error is None ==> (r is Ok || (r matches Err(e) && e is Json)),
    {
        match self.error {
            Some(e) => Err(Error::Rpc(e)),
            None => decoded_to_result(decode_value::<T>(self.result)),
        }
    }

    /// Fail with the server's error if one is set, succeed otherwise.
    pub fn check_error(self) -> (r: Result<(), Error>)
        ensures
            self.error matches Some(e) ==> r == Err::<(), Error>(Error::Rpc(e)),
            self.error is None ==> r == Ok::<(), Error>(()),
    {
        match self.error {
            Some(e) => Err(Error::Rpc(e)),
            None => Ok(()),
        }
    }

    /// Return the server's error, if any, consuming the response.
    pub fn error(self) -> (r: Option<RpcError>)
        ensures
            r == self.error,
    {
        self.error
    }

    /// Whether the result field is set.
    pub fn is_result(&self) -> (r: bool)
        ensures
            r == (self.result is Some),
    {
        self.result.is_some()
    }

    /// Whether the error field is set.
    pub fn is_error(&self) -> (r: bool)
        ensures
            r == (self.error is Some),
    {
        self.error.is_some()
    }
}

} // verus!
