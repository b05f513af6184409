//! State predicates: a named region of states, composable by logical
//! complement and conjunction.

use vstd::prelude::*;

verus! {

use crate::state::State;
use crate::transfer::Transfer;
use crate::types::{StateAspectId, StateValue};

/// One elementary test of a state.
#[derive(Clone, Copy, PartialEq, Eq, Structural, Debug)]
pub enum AspectTest {
    /// Satisfied by every state.
    Always,
    /// The aspect is bound and holds exactly the given value.
    ValueIs(StateAspectId, StateValue),
    /// The aspect is bound, holds an integer, and that integer is at most
    /// the given bound.
    IntAtMost(StateAspectId, i64),
}

impl AspectTest {
    /// Whether the test is satisfied by the state `s`.
    pub open spec fn holds(self, s: Map<u64, StateValue>) -> bool {
        match self {
            AspectTest::Always => true,
            AspectTest::ValueIs(aspect, value) => s.contains_key(aspect) && s[aspect] == value,
            AspectTest::IntAtMost(aspect, bound) => s.contains_key(aspect) && s[aspect] is Int
                && s[aspect]->Int_0 <= bound,
        }
    }

    /// Evaluates the test on a state.
    pub fn eval(&self, state: &State) -> (r: bool)
        ensures
            r == self.holds(state@),
    {
        match self {
            AspectTest::Always => true,
            AspectTest::ValueIs(aspect, value) => match state.get(*aspect) {
                Some(v) => v == *value,
                None => false,
            },
            AspectTest::IntAtMost(aspect, bound) => match state.get(*aspect) {
                Some(StateValue::Int(v)) => v <= *bound,
                _ => false,
            },
        }
    }
}

/// A predicate over states: the (possibly composite) test that a state lies
/// in a region. Composition produces a new predicate and never mutates its
/// operands.
pub enum StateInRange {
    /// One elementary test.
    Test(AspectTest),
    /// The logical complement of a predicate.
    Not(Box<StateInRange>),
    /// The conjunction of two predicates.
    And(Box<StateInRange>, Box<StateInRange>),
    /// Satisfied by the states that the given transfer sends into the given
    /// region.
    Landing(Transfer, Box<StateInRange>),
}

impl StateInRange {
    /// Wraps one elementary test as a predicate.
    pub fn new(test: AspectTest) -> (r: Self)
        ensures
            r == StateInRange::Test(test),
    {
        StateInRange::Test(test)
    }

    /// Whether the state `s` lies in the region this predicate describes.
    pub open spec fn holds(self, s: Map<u64, StateValue>) -> bool
        decreases self,
    {
        match self {
            StateInRange::Test(test) => test.holds(s),
            StateInRange::Not(p) => !p.holds(s),
            StateInRange::And(p, q) => p.holds(s) && q.holds(s),
            StateInRange::Landing(f, p) => p.holds(f.apply_map(s)),
        }
    }

    /// Whether the given state satisfies the predicate.
    pub fn contains(&self, state: &State) -> (r: bool)
        ensures
            r == self.holds(state@),
        decreases *self,
    {
        match self {
            StateInRange::Test(test) => test.eval(state),
            StateInRange::Not(p) => !p.contains(state),
            StateInRange::And(p, q) => p.contains(state) && q.contains(state),
            StateInRange::Landing(f, p) => {
                let next = f.apply(state);
                p.contains(&next)
            },
        }
    }

    /// The logical complement of this predicate.
    pub fn not(self) -> (r: Self)
        ensures
            forall|s: Map<u64, StateValue>| #[trigger] r.holds(s) == !self.holds(s),
    {
        StateInRange::Not(Box::new(self))
    }

    /// The conjunction of this predicate and `other`. Evaluation
    /// short-circuits: `other` is not consulted on a state outside `self`.
    pub fn and(self, other: Self) -> (r: Self)
        ensures
            forall|s: Map<u64, StateValue>| #[trigger] r.holds(s) == (self.holds(s)
                && other.holds(s)),
    {
        StateInRange::And(Box::new(self), Box::new(other))
    }
}

impl Clone for StateInRange {
    /// An equal predicate.
    fn clone(&self) -> (r: Self)
        ensures
            r == *self,
        decreases *self,
    {
        match self {
            StateInRange::Test(test) => StateInRange::Test(*test),
            StateInRange::Not(p) => StateInRange::Not(Box::new((&**p).clone())),
            StateInRange::And(p, q) => StateInRange::And(
                Box::new((&**p).clone()),
                Box::new((&**q).clone()),
            ),
            StateInRange::Landing(f, p) => StateInRange::Landing(
                f.clone(),
                Box::new((&**p).clone()),
            ),
        }
    }
}

} // verus!
