//! The record of what was asked of a model and what came of it, kept as a
//! plain list of changes.

use crate::server::model::ModelStatus;
use vstd::prelude::*;

verus! {

/// One change in the life of a model: something asked for, or something done.
#[derive(Clone, Copy, Debug, PartialEq, Eq, Structural)]
pub enum StateChange {
    CreateModel,
    ModelCreated,
    DestroyModel,
    ModelDestroyed,
    ConfigureModel,
    ModelConfigured,
    AddRune,
    RuneAdded,
    RemoveRune,
    RuneRemoved,
}

/// The status that a list of changes asks for: requested from the start and
/// after each request for creation, ready after each creation that was done.
pub open spec fn desired_status(history: Seq<StateChange>) -> ModelStatus
    decreases history.len(),
{
    if history.len() == 0 {
        ModelStatus::Requested
    } else {
        match history.last() {
            StateChange::CreateModel => ModelStatus::Requested,
            StateChange::ModelCreated => ModelStatus::Ready,
            _ => desired_status(history.drop_last()),
        }
    }
}

/// The status that the changes in `history` ask for.
pub fn desired_state(history: &Vec<StateChange>) -> (r: ModelStatus)
    ensures
        r == desired_status(history@),
{
    let mut status = ModelStatus::Requested;
    let mut i: usize = 0;
    proof {
        assert(history@.take(0).len() == 0);
    }
    while i < history.len()
        invariant
            i <= history@.len(),
            status == desired_status(history@.take(i as int)),
        decreases history@.len() - i,
    {
        proof {
            let next = history@.take(i + 1);
            assert(next.drop_last() == history@.take(i as int));
            assert(next.last() == history@[i as int]);
        }
        match history[i] {
            StateChange::CreateModel => {
                status = ModelStatus::Requested;
            },
            StateChange::ModelCreated => {
                status = ModelStatus::Ready;
            },
            _ => {},
        }
        i += 1;
    }
    proof {
        assert(history@.take(i as int) == history@);
    }
    status
}

} // verus!
