//! Batch reconciliation: matching an unordered, possibly incomplete or
//! duplicated list of responses back to the ordered list of requests that
//! produced it.

use vstd::prelude::*;

use crate::Request;
use crate::Response;
use crate::error::Error;
use crate::ident::Id;
use crate::ident::IdRep;
use crate::ident::id_equal;

verus! {

/// All response ids in the batch are pairwise distinct.
pub open spec fn ids_distinct(rs: Seq<Response>) -> bool {
    forall|i: int, j: int| 0 <= i < j < rs.len() ==> rs[i].id@ != rs[j].id@
}

/// Some response before position `k` already carries the id of `rs[k]`.
pub open spec fn prior_dup(rs: Seq<Response>, k: int) -> bool {
    exists|i: int| 0 <= i < k && #[trigger] rs[i].id@ == rs[k].id@
}

/// `k` is the position at which a duplicate id is first detected when the
/// batch is consumed in arrival order.
pub open spec fn is_first_dup(rs: Seq<Response>, k: int) -> bool {
    &&& 0 <= k < rs.len()
    &&& prior_dup(rs, k)
    &&& forall|k2: int| 0 <= k2 < k ==> !prior_dup(rs, k2)
}

/// The response a duplicate-id failure carries: the one first stored under
/// the offending id, not the later duplicate.
pub open spec fn dup_carried(rs: Seq<Response>) -> Response {
    let k = choose|k: int| is_first_dup(rs, k);
    rs[choose|i: int| 0 <= i < k && #[trigger] rs[i].id@ == rs[k].id@]
}

/// Some request in the batch carries this id.
pub open spec fn answered(qs: Seq<Request>, id: IdRep) -> bool {
    exists|k: int| 0 <= k < qs.len() && #[trigger] qs[k].id@ == id
}

/// Some response in the batch carries this id.
pub open spec fn has_response(rs: Seq<Response>, id: IdRep) -> bool {
    exists|j: int| 0 <= j < rs.len() && #[trigger] rs[j].id@ == id
}

/// The response carrying this id (unique when ids are distinct).
pub open spec fn response_at(rs: Seq<Response>, id: IdRep) -> Response {
    rs[choose|j: int| 0 <= j < rs.len() && #[trigger] rs[j].id@ == id]
}

/// No earlier request shares the id of request `i`.
pub open spec fn first_request_with_id(qs: Seq<Request>, i: int) -> bool {
    forall|k: int| 0 <= k < i ==> qs[k].id@ != qs[i].id@
}

/// Every response id in the batch belongs to some request.
pub open spec fn all_matched(qs: Seq<Request>, rs: Seq<Response>) -> bool {
    forall|j: int| 0 <= j < rs.len() ==> answered(qs, #[trigger] rs[j].id@)
}

/// `j` is the first position, in arrival order, of a response whose id
/// matches no request.
pub open spec fn is_first_unmatched(qs: Seq<Request>, rs: Seq<Response>, j: int) -> bool {
    &&& 0 <= j < rs.len()
    &&& !answered(qs, rs[j].id@)
    &&& forall|j2: int| 0 <= j2 < j ==> answered(qs, #[trigger] rs[j2].id@)
}

/// The response an unknown-id failure carries: the first unmatched one.
pub open spec fn unmatched_carried(qs: Seq<Request>, rs: Seq<Response>) -> Response {
    rs[choose|j: int| is_first_unmatched(qs, rs, j)]
}

/// What a successful reconciliation puts at position `i`: the response
/// echoing the id of request `i`, or nothing if the server chose not to
/// answer it.  Of several requests sharing an id (a client-side oddity the
/// protocol does not rule out), the first one claims the response.
pub open spec fn reconciled_entry(qs: Seq<Request>, rs: Seq<Response>, i: int) -> Option<
    Response,
> {
    if has_response(rs, qs[i].id@) && first_request_with_id(qs, i) {
        Some(response_at(rs, qs[i].id@))
    } else {
        None
    }
}

/// Response `j` has been claimed by one of the first `i` requests.
pub open spec fn consumed(qs: Seq<Request>, rs: Seq<Response>, i: int, j: int) -> bool {
    exists|k: int|
        0 <= k < i && first_request_with_id(qs, k) && #[trigger] qs[k].id@ == rs[j].id@
}

/// A pool slot still holds a response with the given id.
pub open spec fn slot_matches(slot: Option<Response>, id: IdRep) -> bool {
    slot matches Some(r) && r.id@ == id
}

/// Every id that occurs among the requests occurs first at some position
/// that no earlier request shares.
proof fn lemma_first_with_id(qs: Seq<Request>, i: int)
    requires
        0 <= i < qs.len(),
    ensures
        exists|k: int|
            0 <= k <= i && #[trigger] qs[k].id@ == qs[i].id@ && first_request_with_id(qs, k),
    decreases i,
{
    if first_request_with_id(qs, i) {
        assert(qs[i].id@ == qs[i].id@ && first_request_with_id(qs, i));
    } else {
        assert(exists|k: int| 0 <= k < i && #[trigger] qs[k].id@ == qs[i].id@);
        let k = choose|k: int| 0 <= k < i && #[trigger] qs[k].id@ == qs[i].id@;
        lemma_first_with_id(qs, k);
        let k0 = choose|k0: int|
            0 <= k0 <= k && #[trigger] qs[k0].id@ == qs[k].id@ && first_request_with_id(qs, k0);
        assert(qs[k0].id@ == qs[i].id@ && first_request_with_id(qs, k0));
    }
}

/// Pins down the response a duplicate-id failure carries, from the concrete
/// positions the scan found: `k` the first position with a duplicated id
/// and `i` the earlier position holding that id.
proof fn lemma_dup_carried(rs: Seq<Response>, i: int, k: int)
    requires
        0 <= i < k < rs.len(),
        rs[i].id@ == rs[k].id@,
        forall|a: int, b: int| 0 <= a < b < k ==> rs[a].id@ != rs[b].id@,
    ensures
        !ids_distinct(rs),
        dup_carried(rs) == rs[i],
{
    assert(prior_dup(rs, k));
    assert forall|k2: int| 0 <= k2 < k implies !prior_dup(rs, k2) by {
        if prior_dup(rs, k2) {
            let a = choose|a: int| 0 <= a < k2 && #[trigger] rs[a].id@ == rs[k2].id@;
            assert(false);
        }
    }
    assert(is_first_dup(rs, k));
    let kk = choose|t: int| is_first_dup(rs, t);
    assert(is_first_dup(rs, kk));
    if kk != k {
        if kk < k {
            assert(!prior_dup(rs, kk));
        } else {
            assert(!prior_dup(rs, k));
        }
        assert(false);
    }
    assert(0 <= i < k && rs[i].id@ == rs[k].id@);
    let ii = choose|t: int| 0 <= t < kk && #[trigger] rs[t].id@ == rs[kk].id@;
    assert(ii == i);
}

/// Pins down the response an unknown-id failure carries, from the first
/// position `j` whose id no request uses.
proof fn lemma_unmatched_carried(qs: Seq<Request>, rs: Seq<Response>, j: int)
    requires
        0 <= j < rs.len(),
        !answered(qs, rs[j].id@),
        forall|j2: int| 0 <= j2 < j ==> answered(qs, #[trigger] rs[j2].id@),
    ensures
        !all_matched(qs, rs),
        unmatched_carried(qs, rs) == rs[j],
{
    assert(is_first_unmatched(qs, rs, j));
    let jj = choose|t: int| is_first_unmatched(qs, rs, t);
    assert(is_first_unmatched(qs, rs, jj));
    if jj != j {
        if jj < j {
            assert(answered(qs, rs[jj].id@));
        } else {
            assert(answered(qs, rs[j].id@));
        }
        assert(false);
    }
}

/// With pairwise distinct ids, looking a response up by its own id finds
/// exactly that response.
proof fn lemma_response_at(rs: Seq<Response>, j: int)
    requires
        0 <= j < rs.len(),
        ids_distinct(rs),
    ensures
        has_response(rs, rs[j].id@),
        response_at(rs, rs[j].id@) == rs[j],
{
    assert(rs[j].id@ == rs[j].id@);
    let t = choose|t: int| 0 <= t < rs.len() && #[trigger] rs[t].id@ == rs[j].id@;
    if t != j {
        assert(false);
    }
}

/// What holds when a request claims the pool slot `j` matching its id:
/// request `i` is the first with its id, the claimed response is the
/// reconciled entry for `i`, and clearing the slot is exactly the step from
/// `i` to `i + 1` of the consumption relation.
proof fn lemma_take_found(
    qs: Seq<Request>,
    rs: Seq<Response>,
    i: int,
    j: int,
    pool: Seq<Option<Response>>,
)
    requires
        0 <= i < qs.len(),
        0 <= j < rs.len(),
        rs.len() == pool.len(),
        ids_distinct(rs),
        forall|t: int|
            0 <= t < rs.len() ==> pool[t] == (if consumed(qs, rs, i, t) {
                None::<Response>
            } else {
                Some(rs[t])
            }),
        slot_matches(pool[j], qs[i].id@),
    ensures
        pool[j] == Some(rs[j]),
        rs[j].id@ == qs[i].id@,
        reconciled_entry(qs, rs, i) == Some(rs[j]),
        forall|t: int|
            0 <= t < rs.len() ==> pool.update(j, None::<Response>)[t] == (if consumed(
                qs,
                rs,
                i + 1,
                t,
            ) {
                None::<Response>
            } else {
                Some(rs[t])
            }),
{
    assert(!consumed(qs, rs, i, j));
    assert(pool[j] == Some(rs[j]));
    assert(rs[j].id@ == qs[i].id@);
    if !first_request_with_id(qs, i) {
        assert(exists|k: int| 0 <= k < i && #[trigger] qs[k].id@ == qs[i].id@);
        let k = choose|k: int| 0 <= k < i && #[trigger] qs[k].id@ == qs[i].id@;
        lemma_first_with_id(qs, k);
        let k0 = choose|k0: int|
            0 <= k0 <= k && #[trigger] qs[k0].id@ == qs[k].id@ && first_request_with_id(qs, k0);
        assert(qs[k0].id@ == rs[j].id@);
        assert(consumed(qs, rs, i, j));
        assert(false);
    }
    lemma_response_at(rs, j);
    assert forall|t: int| 0 <= t < rs.len() implies pool.update(j, None::<Response>)[t] == (
    if consumed(qs, rs, i + 1, t) {
        None::<Response>
    } else {
        Some(rs[t])
    }) by {
        if t == j {
            assert(qs[i].id@ == rs[j].id@);
            assert(consumed(qs, rs, i + 1, j));
        } else {
            if consumed(qs, rs, i + 1, t) && !consumed(qs, rs, i, t) {
                let k = choose|k: int|
                    0 <= k < i + 1 && first_request_with_id(qs, k) && #[trigger] qs[k].id@
                        == rs[t].id@;
                if k < i {
                    assert(consumed(qs, rs, i, t));
                } else {
                    assert(rs[t].id@ == rs[j].id@);
                    assert(false);
                }
            }
            if consumed(qs, rs, i, t) {
                let k = choose|k: int|
                    0 <= k < i && first_request_with_id(qs, k) && #[trigger] qs[k].id@
                        == rs[t].id@;
                assert(0 <= k < i + 1 && first_request_with_id(qs, k) && qs[k].id@ == rs[t].id@);
                assert(consumed(qs, rs, i + 1, t));
            }
        }
    }
}

/// What holds when no pool slot matches the id of request `i`: the
/// reconciled entry for `i` is `None` and the consumption relation does not
/// move.
proof fn lemma_take_missing(
    qs: Seq<Request>,
    rs: Seq<Response>,
    i: int,
    pool: Seq<Option<Response>>,
)
    requires
        0 <= i < qs.len(),
        rs.len() == pool.len(),
        ids_distinct(rs),
        forall|t: int|
            0 <= t < rs.len() ==> pool[t] == (if consumed(qs, rs, i, t) {
                None::<Response>
            } else {
                Some(rs[t])
            }),
        forall|j2: int| 0 <= j2 < pool.len() ==> !slot_matches(pool[j2], qs[i].id@),
    ensures
        reconciled_entry(qs, rs, i) == None::<Response>,
        forall|t: int|
            0 <= t < rs.len() ==> pool[t] == (if consumed(qs, rs, i + 1, t) {
                None::<Response>
            } else {
                Some(rs[t])
            }),
{
    if has_response(rs, qs[i].id@) && first_request_with_id(qs, i) {
        let j = choose|j: int| 0 <= j < rs.len() && #[trigger] rs[j].id@ == qs[i].id@;
        if consumed(qs, rs, i, j) {
            let k = choose|k: int|
                0 <= k < i && first_request_with_id(qs, k) && #[trigger] qs[k].id@ == rs[j].id@;
            assert(qs[k].id@ == qs[i].id@);
            assert(false);
        }
        assert(pool[j] == Some(rs[j]));
        assert(slot_matches(pool[j], qs[i].id@));
        assert(false);
    }
    assert forall|t: int| 0 <= t < rs.len() implies pool[t] == (if consumed(qs, rs, i + 1, t) {
        None::<Response>
    } else {
        Some(rs[t])
    }) by {
        if consumed(qs, rs, i + 1, t) && !consumed(qs, rs, i, t) {
            let k = choose|k: int|
                0 <= k < i + 1 && first_request_with_id(qs, k) && #[trigger] qs[k].id@
                    == rs[t].id@;
            if k < i {
                assert(consumed(qs, rs, i, t));
                assert(false);
            } else {
                assert(pool[t] == Some(rs[t]));
                assert(slot_matches(pool[t], qs[i].id@));
                assert(false);
            }
        }
        if consumed(qs, rs, i, t) {
            let k = choose|k: int|
                0 <= k < i && first_request_with_id(qs, k) && #[trigger] qs[k].id@ == rs[t].id@;
            assert(0 <= k < i + 1 && first_request_with_id(qs, k) && qs[k].id@ == rs[t].id@);
            assert(consumed(qs, rs, i + 1, t));
        }
    }
}

/// A response left in the pool after every request has claimed its answer
/// was never asked for; if it is the first such in arrival order, it is the
/// one the failure carries.
proof fn lemma_leftover(qs: Seq<Request>, rs: Seq<Response>, j: int)
    requires
        0 <= j < rs.len(),
        !consumed(qs, rs, qs.len() as int, j),
        forall|t: int| 0 <= t < j ==> answered(qs, #[trigger] rs[t].id@),
    ensures
        !all_matched(qs, rs),
        unmatched_carried(qs, rs) == rs[j],
{
    if answered(qs, rs[j].id@) {
        let k = choose|k: int| 0 <= k < qs.len() && #[trigger] qs[k].id@ == rs[j].id@;
        lemma_first_with_id(qs, k);
        let k0 = choose|k0: int|
            0 <= k0 <= k && #[trigger] qs[k0].id@ == qs[k].id@ && first_request_with_id(qs, k0);
        assert(qs[k0].id@ == rs[j].id@);
        assert(consumed(qs, rs, qs.len() as int, j));
        assert(false);
    }
    lemma_unmatched_carried(qs, rs, j);
}

/// A pool slot cleared during matching belonged to a response some request
/// had asked for.
proof fn lemma_slot_cleared(qs: Seq<Request>, rs: Seq<Response>, j: int)
    requires
        0 <= j < rs.len(),
        consumed(qs, rs, qs.len() as int, j),
    ensures
        answered(qs, rs[j].id@),
{
    let k = choose|k: int|
        0 <= k < qs.len() && first_request_with_id(qs, k) && #[trigger] qs[k].id@ == rs[j].id@;
    assert(0 <= k < qs.len() && qs[k].id@ == rs[j].id@);
}

/// Law: reconciling requests with numeric ids `1..=n` against responses
/// carrying the same ids in reverse order restores request order.  No
/// structural failure applies — the ids are distinct and every response is
/// matched — and the response for id `k` ends up at position `k - 1`, so
/// [`reconcile`] returns `Ok` with exactly that alignment.
pub proof fn lemma_round_trip(qs: Seq<Request>, rs: Seq<Response>)
    requires
        qs.len() == rs.len(),
        qs.len() >= 1,
        qs.len() <= u64::MAX,
        forall|i: int| 0 <= i < qs.len() ==> #[trigger] qs[i].id@ == IdRep::Num((i + 1) as u64),
        forall|j: int|
            0 <= j < rs.len() ==> #[trigger] rs[j].id@ == IdRep::Num((rs.len() - j) as u64),
    ensures
        ids_distinct(rs),
        all_matched(qs, rs),
        forall|i: int|
            0 <= i < qs.len() ==> reconciled_entry(qs, rs, i) == Some(rs[qs.len() - 1 - i]),
{
    let n = qs.len() as int;
    assert forall|j: int| 0 <= j < n implies answered(qs, #[trigger] rs[j].id@) by {
        assert(qs[n - 1 - j].id@ == rs[j].id@);
    }
    assert forall|i: int| 0 <= i < n implies reconciled_entry(qs, rs, i) == Some(
        rs[n - 1 - i],
    ) by {
        assert(rs[n - 1 - i].id@ == qs[i].id@);
        lemma_response_at(rs, n - 1 - i);
        assert(first_request_with_id(qs, i));
    }
}

/// Find the first pool slot still holding a response with this id.
fn find_slot(pool: &Vec<Option<Response>>, id: &Id) -> (found: Option<usize>)
    ensures
        found matches Some(j) ==> j < pool@.len() && slot_matches(pool@[j as int], id@)
            && (forall|j2: int| 0 <= j2 < j ==> !slot_matches(pool@[j2], id@)),
        found is None ==> forall|j2: int| 0 <= j2 < pool@.len() ==> !slot_matches(pool@[j2], id@),
{
    let mut j: usize = 0;
    while j < pool.len()
        invariant
            j <= pool@.len(),
            forall|j2: int| 0 <= j2 < j ==> !slot_matches(pool@[j2], id@),
        decreases pool@.len() - j,
    {
        let hit = match &pool[j] {
            Some(r) => id_equal(&r.id, id),
            None => false,
        };
        if hit {
            return Some(j);
        }
        j += 1;
    }
    None
}

/// Match an unordered, possibly incomplete batch of responses back to the
/// ordered batch of requests that produced it.
///
/// On success the entry at position `i` is the response echoing the id of
/// request `i`, or `None` if the server chose not to answer that request.
/// Structural violations are reported in this order: an empty request batch,
/// more responses than requests, a duplicated response id (carrying the
/// response first stored under that id), and a response id no request used
/// (carrying the first such response in arrival order).
#[verifier::loop_isolation(false)]
pub fn reconcile(requests: &[Request], responses: Vec<Response>) -> (r: Result<
    Vec<Option<Response>>,
    Error,
>)
    ensures
        requests@.len() == 0 ==> r == Err::<Vec<Option<Response>>, Error>(Error::EmptyBatch),
        requests@.len() > 0 && responses@.len() > requests@.len() ==> r == Err::<
            Vec<Option<Response>>,
            Error,
        >(Error::WrongBatchResponseSize),
        requests@.len() > 0 && responses@.len() <= requests@.len() && !ids_distinct(responses@)
            ==> r == Err::<Vec<Option<Response>>, Error>(
            Error::BatchDuplicateResponseId(dup_carried(responses@)),
        ),
        requests@.len() > 0 && responses@.len() <= requests@.len() && ids_distinct(responses@)
            && !all_matched(requests@, responses@) ==> r == Err::<Vec<Option<Response>>, Error>(
            Error::WrongBatchResponseId(unmatched_carried(requests@, responses@)),
        ),
        requests@.len() > 0 && responses@.len() <= requests@.len() && ids_distinct(responses@)
            && all_matched(requests@, responses@) ==> (r matches Ok(out) && out@.len()
            == requests@.len() && (forall|i: int|
            0 <= i < requests@.len() ==> out@[i] == reconciled_entry(
                requests@,
                responses@,
                i,
            ))),
{
    let ghost qs = requests@;
    let ghost rs = responses@;

    if requests.len() == 0 {
        return Err(Error::EmptyBatch);
    }
    if responses.len() > requests.len() {
        return Err(Error::WrongBatchResponseSize);
    }

    // Arrival-order scan for a duplicated id; the first id ever seen twice
    // decides the error, and the response first stored under it is carried.
    let mut responses = responses;
    let mut k: usize = 0;
    while k < responses.len()
        invariant
            requests@ == qs,
            qs.len() > 0,
            rs.len() <= qs.len(),
            responses@ == rs,
            k <= rs.len(),
            forall|a: int, b: int| 0 <= a < b < k ==> rs[a].id@ != rs[b].id@,
        decreases rs.len() - k,
    {
        let mut i: usize = 0;
        while i < k
            invariant
                requests@ == qs,
                qs.len() > 0,
                rs.len() <= qs.len(),
                responses@ == rs,
                i <= k < rs.len(),
                forall|a: int, b: int| 0 <= a < b < k ==> rs[a].id@ != rs[b].id@,
                forall|a: int| 0 <= a < i ==> rs[a].id@ != rs[k as int].id@,
            decreases k - i,
        {
            if id_equal(&responses[i].id, &responses[k].id) {
                proof {
                    lemma_dup_carried(rs, i as int, k as int);
                }
                let first = responses.swap_remove(i);
                return Err(Error::BatchDuplicateResponseId(first));
            }
            i += 1;
        }
        k += 1;
    }
    assert(ids_distinct(rs));

    // Index the responses by position, so each can be claimed at most once.
    let mut pool: Vec<Option<Response>> = Vec::new();
    while responses.len() > 0
        invariant
            qs.len() > 0,
            rs.len() <= qs.len(),
            pool@.len() + responses@.len() == rs.len(),
            forall|t: int| 0 <= t < pool@.len() ==> pool@[t] == Some(rs[t]),
            forall|t: int| 0 <= t < responses@.len() ==> responses@[t] == rs[pool@.len() + t],
        decreases responses@.len(),
    {
        let moved = responses.remove(0);
        proof {
            assert(moved == rs[pool@.len() as int]);
        }
        pool.push(Some(moved));
    }

    // Claim, in request order, the response echoing each request's id.
    let mut out: Vec<Option<Response>> = Vec::new();
    let mut i: usize = 0;
    while i < requests.len()
        invariant
            requests@ == qs,
            qs.len() > 0,
            rs.len() <= qs.len(),
            i <= qs.len(),
            out@.len() == i,
            pool@.len() == rs.len(),
            ids_distinct(rs),
            forall|j: int|
                0 <= j < rs.len() ==> pool@[j] == (if consumed(qs, rs, i as int, j) {
                    None::<Response>
                } else {
                    Some(rs[j])
                }),
            forall|t: int| 0 <= t < i ==> out@[t] == reconciled_entry(qs, rs, t),
        decreases qs.len() - i,
    {
        match find_slot(&pool, &requests[i].id) {
            Some(j) => {
                proof {
                    lemma_take_found(qs, rs, i as int, j as int, pool@);
                }
                let got = pool[j].take();
                out.push(got);
            },
            None => {
                proof {
                    lemma_take_missing(qs, rs, i as int, pool@);
                }
                out.push(None);
            },
        }
        i += 1;
    }

    // Anything still unclaimed was an answer to a question never asked.
    let mut j: usize = 0;
    while j < pool.len()
        invariant
            qs.len() > 0,
            rs.len() <= qs.len(),
            pool@.len() == rs.len(),
            j <= rs.len(),
            ids_distinct(rs),
            forall|t: int|
                0 <= t < rs.len() ==> pool@[t] == (if consumed(qs, rs, qs.len() as int, t) {
                    None::<Response>
                } else {
                    Some(rs[t])
                }),
            forall|t: int| 0 <= t < j ==> answered(qs, #[trigger] rs[t].id@),
        decreases rs.len() - j,
    {
        let leftover = pool[j].take();
        match leftover {
            Some(resp) => {
                proof {
                    lemma_leftover(qs, rs, j as int);
                }
                return Err(Error::WrongBatchResponseId(resp));
            },
            None => {
                proof {
                    lemma_slot_cleared(qs, rs, j as int);
                }
            },
        }
        j += 1;
    }
    Ok(out)
}

} // verus!
