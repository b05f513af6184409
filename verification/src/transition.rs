//! Transition declarations.

use vstd::prelude::*;

verus! {

use crate::state_in_range::StateInRange;
use crate::transfer::Transfer;
use crate::types::{CallbackId, EventId, TransitionId};

/// Binds an event to a guarded, prioritized state transformation. Immutable
/// once constructed.
pub struct Transition {
    /// The transition's unique identifier.
    pub id: TransitionId,
    /// The event that may trigger this transition.
    pub event_id: EventId,
    /// The guard: the transition is a candidate only in states inside it.
    pub guard: StateInRange,
    /// The transformation applied to the state when the transition commits.
    pub transfer: Transfer,
    /// Priority among candidates for the same event; higher wins.
    pub priority: i32,
    /// Handle of the callback to report when the transition commits, if any.
    pub on_tran: Option<CallbackId>,
}

impl Clone for Transition {
    /// An equal transition.
    fn clone(&self) -> (r: Self)
        ensures
            r == *self,
    {
        Transition {
            id: self.id,
            event_id: self.event_id,
            guard: self.guard.clone(),
            transfer: self.transfer.clone(),
            priority: self.priority,
            on_tran: self.on_tran,
        }
    }
}

} // verus!
