//! Where a batch stands between its submission and its end.

use crate::dispatch::{DispatchState, Dispatcher};
use crate::results::{AlignmentBatchResultIter, EndReason};
use vstd::prelude::*;

verus! {

/// The stages of a batch.
#[derive(Debug, Clone, Copy, PartialEq, Eq, Structural)]
pub enum BatchState {
    /// Nothing has been submitted.
    Idle,
    /// The dispatcher is at work: records, or sentinels, are still to be
    /// pushed.
    Dispatching,
    /// Every item and every sentinel is pushed; results are still on their
    /// way.
    Draining,
    /// The completion marker has reached the caller.
    Finished,
    /// The dispatcher has failed.
    Aborted,
}

/// The stage of a batch, by its dispatcher, if it has one yet, and by how
/// its sequence of results has ended, if it has.
///
/// Only the completion marker ends a batch well: one whose channel was
/// closed before the marker came, or whose sequence broke off on a result
/// without side data, stays where it was.
pub open spec fn batch_state_of(dispatch: Option<DispatchState>, ended: Option<EndReason>)
    -> BatchState {
    match dispatch {
        None => BatchState::Idle,
        Some(state) => if !state.finished {
            BatchState::Dispatching
        } else if state.failure is Some {
            BatchState::Aborted
        } else if ended == Some(EndReason::Finished) {
            BatchState::Finished
        } else {
            BatchState::Draining
        },
    }
}

/// `Finished` and `Aborted` are where a batch ends.
pub open spec fn is_terminal(state: BatchState) -> bool {
    state == BatchState::Finished || state == BatchState::Aborted
}

/// The stage of a batch.
pub fn batch_state<M>(dispatcher: Option<&Dispatcher>, res: &AlignmentBatchResultIter<M>) -> (state:
    BatchState)
    ensures
        state == batch_state_of(
            match dispatcher {
                Some(dispatcher) => Some(dispatcher@),
                None => None,
            },
            res.spec_ended(),
        ),
{
    match dispatcher {
        None => BatchState::Idle,
        Some(dispatcher) => match dispatcher.outcome() {
            None => BatchState::Dispatching,
            Some(Err(_)) => BatchState::Aborted,
            Some(Ok(())) => match res.ended() {
                Some(EndReason::Finished) => BatchState::Finished,
                _ => BatchState::Draining,
            },
        },
    }
}

} // verus!
