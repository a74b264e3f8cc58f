//! The hand-offs between the user interface and the capture worker, which
//! keep only the newest relevant item so that neither side falls behind.
use vstd::prelude::*;
use crate::capture::{CaptureRequest, CaptureResult};

verus! {

/// The request that the worker acts on, given the request it blocked for
/// and those that were already queued behind it: the most recent one.
pub fn latest_request(first: CaptureRequest, queued: Vec<CaptureRequest>) -> (r: CaptureRequest)
    ensures
        r == (if queued@.len() == 0 {
            first
        } else {
            queued@.last()
        }),
{
    let mut queued = queued;
    match queued.pop() {
        Some(last) => last,
        None => first,
    }
}

/// Whether `r` was captured for the workspace under the pointer.
pub open spec fn is_current(r: CaptureResult, hovered: Option<i32>) -> bool {
    hovered == Some(r.ws_id)
}

/// Of the results that arrived since the last poll, in arrival order, the
/// one to display: the last that belongs to the hovered workspace. Results
/// for a workspace that the pointer has left are dropped.
pub fn latest_for_hovered(results: Vec<CaptureResult>, hovered: Option<i32>) -> (r: Option<
    CaptureResult,
>)
    ensures
        r matches Some(res) ==> exists|i: int|
            0 <= i < results@.len() && results@[i] == res && is_current(res, hovered) && forall|j: int|
                i < j < results@.len() ==> !is_current(#[trigger] results@[j], hovered),
        r is None ==> forall|j: int|
            0 <= j < results@.len() ==> !is_current(#[trigger] results@[j], hovered),
{
    let ghost all = results@;
    let mut rest = results;
    while rest.len() > 0
        invariant
            all == results@,
            rest@ == all.subrange(0, rest@.len() as int),
            rest@.len() <= all.len(),
            forall|j: int| rest@.len() <= j < all.len() ==> !is_current(#[trigger] all[j], hovered),
        decreases rest@.len(),
    {
        let ghost k = rest@.len() - 1;
        let r = rest.pop().unwrap();
        assert(r == all[k]);
        let current = match hovered {
            Some(h) => h == r.ws_id,
            None => false,
        };
        if current {
            assert(is_current(all[k], hovered));
            assert(results@[k] == r);
            assert(forall|j: int| k < j < all.len() ==> !is_current(#[trigger] all[j], hovered));
            return Some(r);
        }
        assert(rest@ =~= all.subrange(0, rest@.len() as int));
    }
    None
}

} // verus!
