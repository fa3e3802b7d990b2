//! The side of a client: waiting for a request to be completed.

use crate::api::v1::{Model, RequestView};
use crate::server::error::{Error, ErrorView};
use vstd::prelude::*;

verus! {

/// How often a client looks at a model before it gives up on a request.
pub const ATTEMPTS: u32 = 10;

/// Whether the request with the identifier `request` is among the shown
/// requests and has been completed.
pub open spec fn completed_in(requests: Seq<RequestView>, request: u128) -> bool {
    exists|i: int| 0 <= i < requests.len() && (#[trigger] requests[i]).id == request && requests[i].completed is Some
}

/// Whether the model shows the request with the identifier `request` as
/// completed.
pub fn is_completed(model: &Model, request: u128) -> (r: bool)
    ensures
        r == completed_in(model@.requests, request),
{
    let mut i: usize = 0;
    while i < model.requests.len()
        invariant
            i <= model.requests@.len(),
            forall|k: int|
                0 <= k < i ==> !((#[trigger] model@.requests[k]).id == request && model@.requests[k].completed
                    is Some),
        decreases model.requests@.len() - i,
    {
        if model.requests[i].id == request && model.requests[i].completed.is_some() {
            assert(model@.requests[i as int].id == request && model@.requests[i as int].completed is Some);
            return true;
        }
        i += 1;
    }
    false
}

/// One look at a model while waiting for the request with the identifier
/// `request`, with `left` looks left, this one counted. Where the request is
/// completed the wait is over. Otherwise the client pauses and looks again,
/// with one look less, unless this was the last look: then the wait has
/// taken too long.
pub fn wait_for_action(model: &Model, request: u128, left: u32) -> (r: Result<Option<u32>, Error>)
    ensures
        match r {
            Ok(None) => completed_in(model@.requests, request),
            Ok(Some(n)) => !completed_in(model@.requests, request) && left > 1 && n == left - 1,
            Err(e) => !completed_in(model@.requests, request) && left <= 1 && e@ == ErrorView::Timeout(request),
        },
{
    if is_completed(model, request) {
        Ok(None)
    } else if left > 1 {
        Ok(Some(left - 1))
    } else {
        Err(Error::Timeout(request))
    }
}

} // verus!
