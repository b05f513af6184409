//! Event declarations.

use vstd::prelude::*;

verus! {

use crate::types::{EventId, ValueTag};

/// Declares an event kind: its identifier and the shape of payload it is
/// expected to carry. Declarative bookkeeping only: the engine does not
/// check payloads against it at dispatch time.
#[derive(Clone, Copy, PartialEq, Eq, Structural, Debug)]
pub struct EventDef {
    /// The event's unique identifier.
    pub id: EventId,
    /// The shape of the expected payload.
    pub payload_type_id: ValueTag,
}

} // verus!
