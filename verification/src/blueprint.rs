//! Blueprints: the declarative, immutable definition of a machine's shape,
//! composable by `merge`.

use vstd::prelude::*;

verus! {

use crate::event::EventDef;
use crate::state::IdMap;
use crate::state_aspect::StateAspect;
use crate::state_observer::StateObserver;
use crate::transition::Transition;

/// Aggregates aspect and event declarations with the ordered lists of
/// transitions and observers. Blueprints are pure data: `merge` returns a
/// new blueprint and never mutates its operands.
pub struct StateMachineBlueprint {
    /// Declared aspects, keyed by identifier.
    pub aspects: IdMap<StateAspect>,
    /// Declared events, keyed by identifier.
    pub events: IdMap<EventDef>,
    /// Transitions, in declaration order.
    pub transitions: Vec<Transition>,
    /// Observers, in declaration order.
    pub observers: Vec<StateObserver>,
}

impl StateMachineBlueprint {
    /// An empty blueprint.
    pub fn new() -> (r: Self)
        ensures
            r.aspects@ == Map::<u64, StateAspect>::empty(),
            r.events@ == Map::<u64, EventDef>::empty(),
            r.transitions@ == Seq::<Transition>::empty(),
            r.observers@ == Seq::<StateObserver>::empty(),
    {
        let r = StateMachineBlueprint {
            aspects: IdMap::new(),
            events: IdMap::new(),
            transitions: Vec::new(),
            observers: Vec::new(),
        };
        proof {
            assert(r.transitions@ =~= Seq::<Transition>::empty());
            assert(r.observers@ =~= Seq::<StateObserver>::empty());
        }
        r
    }

    /// A new blueprint holding both operands' declarations: on an aspect or
    /// event identifier bound in both, `other`'s declaration wins; the
    /// transition and observer lists are `self`'s items followed by
    /// `other`'s, each in its original order.
    pub fn merge(&self, other: &Self) -> (r: Self)
        ensures
            r.aspects@ == self.aspects@.union_prefer_right(other.aspects@),
            r.events@ == self.events@.union_prefer_right(other.events@),
            r.transitions@ == self.transitions@ + other.transitions@,
            r.observers@ == self.observers@ + other.observers@,
    {
        let aspects = self.aspects.overlay(&other.aspects);
        let events = self.events.overlay(&other.events);
        let transitions = concat_transitions(&self.transitions, &other.transitions);
        let observers = concat_observers(&self.observers, &other.observers);
        StateMachineBlueprint { aspects, events, transitions, observers }
    }
}

/// The transitions of `a` followed by those of `b`.
fn concat_transitions(a: &Vec<Transition>, b: &Vec<Transition>) -> (r: Vec<Transition>)
    ensures
        r@ == a@ + b@,
{
    let mut r: Vec<Transition> = Vec::new();
    let mut i: usize = 0;
    while i < a.len()
        invariant
            i <= a@.len(),
            r@ == a@.take(i as int),
        decreases a@.len() - i,
    {
        r.push(a[i].clone());
        proof {
            assert(r@ =~= a@.take(i + 1 as int));
        }
        i = i + 1;
    }
    let mut j: usize = 0;
    while j < b.len()
        invariant
            j <= b@.len(),
            r@ == a@.take(a@.len() as int) + b@.take(j as int),
        decreases b@.len() - j,
    {
        r.push(b[j].clone());
        proof {
            assert(r@ =~= a@.take(a@.len() as int) + b@.take(j + 1 as int));
        }
        j = j + 1;
    }
    proof {
        assert(r@ =~= a@ + b@);
    }
    r
}

/// The observers of `a` followed by those of `b`.
fn concat_observers(a: &Vec<StateObserver>, b: &Vec<StateObserver>) -> (r: Vec<StateObserver>)
    ensures
        r@ == a@ + b@,
{
    let mut r: Vec<StateObserver> = Vec::new();
    let mut i: usize = 0;
    while i < a.len()
        invariant
            i <= a@.len(),
            r@ == a@.take(i as int),
        decreases a@.len() - i,
    {
        r.push(a[i].clone());
        proof {
            assert(r@ =~= a@.take(i + 1 as int));
        }
        i = i + 1;
    }
    let mut j: usize = 0;
    while j < b.len()
        invariant
            j <= b@.len(),
            r@ == a@.take(a@.len() as int) + b@.take(j as int),
        decreases b@.len() - j,
    {
        r.push(b[j].clone());
        proof {
            assert(r@ =~= a@.take(a@.len() as int) + b@.take(j + 1 as int));
        }
        j = j + 1;
    }
    proof {
        assert(r@ =~= a@ + b@);
    }
    r
}

impl Clone for StateMachineBlueprint {
    /// A blueprint with the same declarations: equal aspect and event maps
    /// and equal transition and observer lists.
    fn clone(&self) -> (r: Self)
        ensures
            r.aspects@ == self.aspects@,
            r.events@ == self.events@,
            r.transitions@ == self.transitions@,
            r.observers@ == self.observers@,
    {
        let empty_transitions: Vec<Transition> = Vec::new();
        let empty_observers: Vec<StateObserver> = Vec::new();
        let transitions = concat_transitions(&self.transitions, &empty_transitions);
        let observers = concat_observers(&self.observers, &empty_observers);
        proof {
            assert(transitions@ =~= self.transitions@);
            assert(observers@ =~= self.observers@);
        }
        StateMachineBlueprint {
            aspects: self.aspects.clone(),
            events: self.events.clone(),
            transitions,
            observers,
        }
    }
}

impl Default for StateMachineBlueprint {
    /// The empty blueprint.
    fn default() -> (r: Self)
        ensures
            r.aspects@ == Map::<u64, StateAspect>::empty(),
            r.events@ == Map::<u64, EventDef>::empty(),
            r.transitions@ == Seq::<Transition>::empty(),
            r.observers@ == Seq::<StateObserver>::empty(),
    {
        StateMachineBlueprint::new()
    }
}

/// Merging is associative: whether blueprints are merged left-nested or
/// right-nested, the resulting aspect and event maps and the flattened
/// transition and observer lists are the same (`merge`'s contract pins the
/// result's fields to exactly these views).
pub proof fn lemma_merge_associative(
    a: StateMachineBlueprint,
    b: StateMachineBlueprint,
    c: StateMachineBlueprint,
)
    ensures
        (a.transitions@ + b.transitions@) + c.transitions@ == a.transitions@ + (b.transitions@
            + c.transitions@),
        (a.observers@ + b.observers@) + c.observers@ == a.observers@ + (b.observers@
            + c.observers@),
        a.aspects@.union_prefer_right(b.aspects@).union_prefer_right(c.aspects@)
            == a.aspects@.union_prefer_right(b.aspects@.union_prefer_right(c.aspects@)),
        a.events@.union_prefer_right(b.events@).union_prefer_right(c.events@)
            == a.events@.union_prefer_right(b.events@.union_prefer_right(c.events@)),
{
    assert((a.transitions@ + b.transitions@) + c.transitions@ =~= a.transitions@ + (b.transitions@
        + c.transitions@));
    assert((a.observers@ + b.observers@) + c.observers@ =~= a.observers@ + (b.observers@
        + c.observers@));
    assert(a.aspects@.union_prefer_right(b.aspects@).union_prefer_right(c.aspects@)
        =~= a.aspects@.union_prefer_right(b.aspects@.union_prefer_right(c.aspects@)));
    assert(a.events@.union_prefer_right(b.events@).union_prefer_right(c.events@)
        =~= a.events@.union_prefer_right(b.events@.union_prefer_right(c.events@)));
}

} // verus!
