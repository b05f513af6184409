//! Identifier aliases and the tagged value type that aspects hold.

use vstd::prelude::*;

verus! {

/// Identifier of one state aspect (one independent dimension of the state).
pub type StateAspectId = u64;

/// Identifier of an event kind.
pub type EventId = u64;

/// Identifier of a transition.
pub type TransitionId = u64;

/// Identifier of an observer.
pub type ObserverId = u64;

/// Opaque handle under which the embedding application registers a callback.
pub type CallbackId = u64;

/// A tagged value held by one aspect of a state, or carried by an event as
/// its payload. Values are plain data: rebinding an aspect means producing a
/// state with the key bound to a new value.
#[derive(Clone, Copy, PartialEq, Eq, Structural, Debug)]
pub enum StateValue {
    /// A value carrying no information.
    Unit,
    /// A boolean value.
    Flag(bool),
    /// A signed integer value.
    Int(i64),
    /// A symbolic value, such as one case of a caller-defined enumeration.
    Sym(u64),
}

/// The shape of value an aspect or an event payload is declared to hold.
/// Declarative bookkeeping only: the engine does not check it at runtime.
#[derive(Clone, Copy, PartialEq, Eq, Structural, Debug)]
pub enum ValueTag {
    /// Holds no information.
    Unit,
    /// A boolean.
    Flag,
    /// A signed integer.
    Int,
    /// A symbolic value.
    Sym,
}

} // verus!
