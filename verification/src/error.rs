//! The error taxonomy of the correlation core.
//!
//! Transport failures (connection errors, TLS, HTTP status) are a separate,
//! external kind of error and are mapped by the transport layer, not here.

use vstd::prelude::*;

use crate::json::clone_value;
use crate::Response;

verus! {

/// A structured application-level error reported by the server inside a
/// response object.
#[derive(Debug, PartialEq)]
pub struct RpcError {
    /// Numeric error code.
    pub code: i64,
    /// Human-readable message.
    pub message: String,
    /// Optional structured payload attached to the error.
    pub data: Option<serde_json::Value>,
}

impl Clone for RpcError {
    fn clone(&self) -> (res: Self)
        ensures
            res == *self,
    {
        RpcError {
            code: self.code,
            message: self.message.clone(),
            data: match &self.data {
                Some(v) => Some(clone_value(v)),
                None => None,
            },
        }
    }
}

/// Why a result payload could not be decoded into the type the caller
/// asked for: the underlying cause, rendered by the JSON library.
#[derive(Debug, Clone, PartialEq)]
pub struct DecodeError {
    /// Human-readable description of the failure.
    pub message: String,
}

/// Everything that can go wrong while correlating responses to requests or
/// extracting a result.
#[derive(Debug)]
pub enum Error {
    /// The response declares a protocol version other than "2.0".
    VersionMismatch,
    /// A single response's id does not equal the id of its request.
    NonceMismatch,
    /// A zero-length batch was handed over for reconciliation.
    EmptyBatch,
    /// The server returned more responses than requests were sent.
    WrongBatchResponseSize,
    /// Two responses in a batch shared an id; carries the first one stored
    /// under that id.
    BatchDuplicateResponseId(Response),
    /// A response's id matched no request in the batch; carries the first
    /// such response in arrival order.
    WrongBatchResponseId(Response),
    /// The server explicitly reported an application-level error.
    Rpc(RpcError),
    /// The result payload could not be decoded into the requested type.
    Json(DecodeError),
}

} // verus!
