//! The client session: a handle holding the server's address, optional
//! credentials, and the nonce counter that makes every issued request id
//! unique.
//!
//! The transport that actually sends serialized payloads lives outside this
//! crate; it wraps a [`Client`] and forwards to [`Client::build_request`],
//! [`validate`] and [`crate::batch::reconcile`].  Concurrent callers share
//! a client through a mutual-exclusion lock, so each call to
//! [`Client::build_request`] still sees the counter exclusively, exactly as
//! the `&mut self` contract below describes.

use vstd::prelude::*;

use crate::Request;
use crate::Response;
use crate::error::Error;
use crate::ident::Id;
use crate::ident::id_equal;

verus! {

/// A handle to a remote JSON-RPC server.
///
/// The nonce is the only mutable state: it increases by one for every
/// request built, so ids are never reused for the lifetime of the counter.
#[derive(Debug)]
pub struct Client {
    /// Address of the server, interpreted by the transport.
    pub url: String,
    /// Optional user name for authentication, attached by the transport.
    pub user: Option<String>,
    /// Optional password for authentication, attached by the transport.
    pub pass: Option<String>,
    /// The last issued nonce; the next request gets `nonce + 1`.
    pub nonce: u64,
}

/// One step of the request builder: `post` is the client after the call and
/// `r` the request it issued.
pub open spec fn build_step(pre: Client, post: Client, r: Request) -> bool {
    &&& post.nonce == pre.nonce + 1
    &&& post.url == pre.url
    &&& post.user == pre.user
    &&& post.pass == pre.pass
    &&& r.id == Id::Num(post.nonce)
}

impl Client {
    /// Create a new client session with its counter at zero.
    pub fn new(url: String, user: Option<String>, pass: Option<String>) -> (c: Client)
        ensures
            c.url == url,
            c.user == user,
            c.pass == pass,
            c.nonce == 0,
    {
        Client { url, user, pass, nonce: 0 }
    }

    /// Build a uniquely identified request: the counter moves up by one and
    /// its new value becomes the request's numeric id, with the protocol
    /// version fixed to "2.0".
    pub fn build_request(&mut self, method: &str, params: Vec<serde_json::Value>) -> (r: Request)
        requires
            old(self).nonce < u64::MAX,
        ensures
            build_step(*old(self), *final(self), r),
            final(self).nonce == old(self).nonce + 1,
            r.id == Id::Num(final(self).nonce),
            r.method@ == method@,
            r.params == params,
            r.jsonrpc matches Some(v) && v@ == "2.0"@,
    {
        self.nonce = self.nonce + 1;
        Request {
            method: method.to_owned(),
            params,
            id: Id::Num(self.nonce),
            jsonrpc: Some("2.0".to_owned()),
        }
    }

    /// Read the last issued nonce.  The snapshot may be stale as soon as
    /// another caller builds a request through the shared lock.
    pub fn last_nonce(&self) -> (r: u64)
        ensures
            r == self.nonce,
    {
        self.nonce
    }
}

/// Law: any run of the request builder issues distinct, strictly
/// increasing, consecutive ids.  `states` are the client values seen before
/// and after each call and `reqs` the requests issued: the `i`-th request
/// carries id `states[0].nonce + i + 1`, so no two requests share an id and
/// there are no gaps.
pub proof fn lemma_builder_ids_consecutive(states: Seq<Client>, reqs: Seq<Request>)
    requires
        states.len() == reqs.len() + 1,
        forall|k: int|
            0 <= k < reqs.len() ==> build_step(states[k], states[k + 1], #[trigger] reqs[k]),
    ensures
        forall|i: int|
            0 <= i < reqs.len() ==> #[trigger] reqs[i].id == Id::Num(
                (states[0].nonce + i + 1) as u64,
            ),
        forall|i: int, j: int| 0 <= i < j < reqs.len() ==> reqs[i].id != reqs[j].id,
{
    assert forall|i: int| 0 <= i < reqs.len() implies #[trigger] reqs[i].id == Id::Num(
        (states[0].nonce + i + 1) as u64,
    ) by {
        lemma_nonce_chain(states, reqs, i + 1);
        assert(build_step(states[i], states[i + 1], reqs[i]));
    }
    assert forall|i: int, j: int| 0 <= i < j < reqs.len() implies reqs[i].id != reqs[j].id by {
        lemma_nonce_chain(states, reqs, i + 1);
        lemma_nonce_chain(states, reqs, j + 1);
        assert(states[0].nonce + i + 1 <= u64::MAX);
        assert(states[0].nonce + j + 1 <= u64::MAX);
    }
}

/// The nonce after `i` build steps is the starting nonce plus `i`.
proof fn lemma_nonce_chain(states: Seq<Client>, reqs: Seq<Request>, i: int)
    requires
        states.len() == reqs.len() + 1,
        forall|k: int|
            0 <= k < reqs.len() ==> build_step(states[k], states[k + 1], #[trigger] reqs[k]),
        0 <= i <= reqs.len(),
    ensures
        states[i].nonce == states[0].nonce + i,
    decreases i,
{
    if i > 0 {
        lemma_nonce_chain(states, reqs, i - 1);
        assert(build_step(states[i - 1], states[i - 1 + 1], reqs[i - 1]));
    }
}

/// Whether a response's declared protocol version is acceptable: an absent
/// marker is tolerated for leniency toward non-conforming servers, a
/// present one must be exactly "2.0".
pub open spec fn version_ok(r: Response) -> bool {
    r.jsonrpc matches Some(v) ==> v@ == "2.0"@
}

/// Check a single response against its originating request: the protocol
/// version must be acceptable and the response must echo the request's id.
/// A valid response is returned unchanged for result extraction.
pub fn validate(request: &Request, response: Response) -> (r: Result<Response, Error>)
    ensures
        !version_ok(response) ==> r == Err::<Response, Error>(Error::VersionMismatch),
        version_ok(response) && response.id@ != request.id@ ==> r == Err::<Response, Error>(
            Error::NonceMismatch,
        ),
        version_ok(response) && response.id@ == request.id@ ==> r == Ok::<Response, Error>(
            response,
        ),
{
    if let Some(v) = &response.jsonrpc {
        let expected: String = "2.0".to_owned();
        if *v != expected {
            return Err(Error::VersionMismatch);
        }
    }
    if !id_equal(&response.id, &request.id) {
        return Err(Error::NonceMismatch);
    }
    Ok(response)
}

} // verus!
