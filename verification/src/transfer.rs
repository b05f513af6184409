//! Pure state transformations: a transfer computes the next state from the
//! current state when a transition fires.

use vstd::prelude::*;

verus! {

use crate::state::State;
use crate::types::{StateAspectId, StateValue};

/// One elementary rewrite of a state.
#[derive(Clone, Copy, PartialEq, Eq, Structural, Debug)]
pub enum TransferOp {
    /// Leave the state as it is.
    Keep,
    /// Rebind one aspect to the given value.
    Assign(StateAspectId, StateValue),
    /// Rebind one aspect to its current integer value plus `delta`, clamped
    /// into `lo ..= hi`. An aspect that is missing or does not hold an
    /// integer counts as `missing`.
    AddClamp { aspect: StateAspectId, delta: i64, lo: i64, hi: i64, missing: i64 },
}

/// Clamps a mathematical integer into the interval `lo ..= hi`, checking the
/// lower bound first.
pub open spec fn clamp(x: int, lo: i64, hi: i64) -> i64 {
    if x < lo {
        lo
    } else if x > hi {
        hi
    } else {
        x as i64
    }
}

/// The integer a state holds at `aspect`, or `missing` when the aspect is
/// absent or holds a value of another shape.
pub open spec fn int_at(s: Map<u64, StateValue>, aspect: StateAspectId, missing: i64) -> i64 {
    if s.contains_key(aspect) && s[aspect] is Int {
        s[aspect]->Int_0
    } else {
        missing
    }
}

impl TransferOp {
    /// The state this elementary rewrite produces.
    pub open spec fn apply_map(self, s: Map<u64, StateValue>) -> Map<u64, StateValue> {
        match self {
            TransferOp::Keep => s,
            TransferOp::Assign(aspect, value) => s.insert(aspect, value),
            TransferOp::AddClamp { aspect, delta, lo, hi, missing } => s.insert(
                aspect,
                StateValue::Int(clamp(int_at(s, aspect, missing) + delta, lo, hi)),
            ),
        }
    }
}

/// A pure function from a state to a new state, built from elementary
/// rewrites and sequential composition. The result is a fresh state value,
/// independent of the input.
pub enum Transfer {
    /// One elementary rewrite.
    Step(TransferOp),
    /// The left transfer followed by the right one.
    Then(Box<Transfer>, Box<Transfer>),
}

impl Transfer {
    /// Wraps one elementary rewrite as a transfer.
    pub fn new(op: TransferOp) -> (r: Self)
        ensures
            r == Transfer::Step(op),
    {
        Transfer::Step(op)
    }

    /// The state this transfer produces from `s`.
    pub open spec fn apply_map(self, s: Map<u64, StateValue>) -> Map<u64, StateValue>
        decreases self,
    {
        match self {
            Transfer::Step(op) => op.apply_map(s),
            Transfer::Then(first, second) => second.apply_map(first.apply_map(s)),
        }
    }

    /// Applies the transfer, returning the new state.
    pub fn apply(&self, state: &State) -> (r: State)
        ensures
            r@ == self.apply_map(state@),
        decreases *self,
    {
        match self {
            Transfer::Step(op) => match op {
                TransferOp::Keep => state.clone(),
                TransferOp::Assign(aspect, value) => {
                    let mut r = state.clone();
                    r.insert(*aspect, *value);
                    r
                },
                TransferOp::AddClamp { aspect, delta, lo, hi, missing } => {
                    let current: i64 = match state.get(*aspect) {
                        Some(StateValue::Int(v)) => v,
                        _ => *missing,
                    };
                    let raw: i128 = current as i128 + *delta as i128;
                    let clamped: i64 = if raw < *lo as i128 {
                        *lo
                    } else if raw > *hi as i128 {
                        *hi
                    } else {
                        raw as i64
                    };
                    let mut r = state.clone();
                    r.insert(*aspect, StateValue::Int(clamped));
                    r
                },
            },
            Transfer::Then(first, second) => {
                let mid = first.apply(state);
                second.apply(&mid)
            },
        }
    }
}

impl Clone for Transfer {
    /// An equal transfer.
    fn clone(&self) -> (r: Self)
        ensures
            r == *self,
        decreases *self,
    {
        match self {
            Transfer::Step(op) => Transfer::Step(*op),
            Transfer::Then(first, second) => Transfer::Then(
                Box::new((&**first).clone()),
                Box::new((&**second).clone()),
            ),
        }
    }
}

} // verus!
