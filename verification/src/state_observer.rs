//! Observer declarations.

use vstd::prelude::*;

verus! {

use crate::state_in_range::StateInRange;
use crate::types::{CallbackId, ObserverId};

/// Watches a region of states across committed transitions: when the state
/// crosses the region's boundary, the matching callback is reported.
pub struct StateObserver {
    /// The observer's unique identifier.
    pub id: ObserverId,
    /// The watched region.
    pub region: StateInRange,
    /// Handle of the callback to report when the state enters the region.
    pub on_enter: Option<CallbackId>,
    /// Handle of the callback to report when the state exits the region.
    pub on_exit: Option<CallbackId>,
}

impl Clone for StateObserver {
    /// An equal observer.
    fn clone(&self) -> (r: Self)
        ensures
            r == *self,
    {
        StateObserver {
            id: self.id,
            region: self.region.clone(),
            on_enter: self.on_enter,
            on_exit: self.on_exit,
        }
    }
}

} // verus!
