//! Aspect declarations.

use vstd::prelude::*;

verus! {

use crate::types::{StateAspectId, ValueTag};

/// Declares one aspect: one independent dimension of the state, with the
/// shape of value it is expected to hold. Declarative bookkeeping only: the
/// engine does not check runtime states against it.
#[derive(Clone, Copy, PartialEq, Eq, Structural, Debug)]
pub struct StateAspect {
    /// The aspect's unique identifier.
    pub id: StateAspectId,
    /// The shape of value this dimension is expected to hold.
    pub value_type_id: ValueTag,
}

} // verus!
