//! Utilities over predicates and blueprints: range partitioning by a
//! transfer's target, and splitting a blueprint by a forbidden region.

use vstd::prelude::*;

verus! {

use crate::blueprint::StateMachineBlueprint;
use crate::state_in_range::StateInRange;
use crate::transfer::Transfer;
use crate::transition::Transition;
use crate::types::StateValue;

/// Splits the range `a` by where the transfer `f` lands: the first returned
/// predicate holds the states of `a` that `f` sends into `b`, the second the
/// states of `a` that it does not. For every state inside `a`, exactly one of
/// the two holds, and the first agrees with whether the transferred state
/// lies in `b`; outside `a` neither holds. The operands are never mutated.
pub fn partition_range_by_transfer_target(a: StateInRange, b: StateInRange, f: Transfer) -> (r: (
    StateInRange,
    StateInRange,
))
    ensures
        forall|s: Map<u64, StateValue>| #[trigger] r.0.holds(s) == (a.holds(s) && b.holds(
            f.apply_map(s),
        )),
        forall|s: Map<u64, StateValue>| #[trigger] r.1.holds(s) == (a.holds(s) && !b.holds(
            f.apply_map(s),
        )),
        forall|s: Map<u64, StateValue>|
            a.holds(s) ==> (#[trigger] r.0.holds(s) != r.1.holds(s)) && (r.0.holds(s) == b.holds(
                f.apply_map(s),
            )),
{
    let c = StateInRange::Landing(f, Box::new(b));
    let lands = a.clone().and(c.clone());
    let strays = a.and(c.not());
    (lands, strays)
}

/// Splits every transition of a blueprint by the `forbidden` region: the
/// first returned blueprint narrows each guard to the states from which the
/// transition's transfer lands inside `forbidden`, the second to those from
/// which it does not. Identifiers, events, priorities, transfers, callbacks,
/// declaration order and everything else in the blueprint stay as they were.
pub fn split_blueprint_by_forbidden_region(
    blueprint: StateMachineBlueprint,
    forbidden: StateInRange,
) -> (r: (StateMachineBlueprint, StateMachineBlueprint))
    ensures
        r.0.aspects@ == blueprint.aspects@,
        r.0.events@ == blueprint.events@,
        r.0.observers@ == blueprint.observers@,
        r.1.aspects@ == blueprint.aspects@,
        r.1.events@ == blueprint.events@,
        r.1.observers@ == blueprint.observers@,
        r.0.transitions@.len() == blueprint.transitions@.len(),
        r.1.transitions@.len() == blueprint.transitions@.len(),
        forall|i: int|
            0 <= i < blueprint.transitions@.len() ==> {
                let t = blueprint.transitions@[i];
                let into = #[trigger] r.0.transitions@[i];
                let astray = r.1.transitions@[i];
                &&& into.id == t.id && astray.id == t.id
                &&& into.event_id == t.event_id && astray.event_id == t.event_id
                &&& into.transfer == t.transfer && astray.transfer == t.transfer
                &&& into.priority == t.priority && astray.priority == t.priority
                &&& into.on_tran == t.on_tran && astray.on_tran == t.on_tran
            },
        forall|i: int, s: Map<u64, StateValue>|
            0 <= i < blueprint.transitions@.len() ==> {
                let t = blueprint.transitions@[i];
                (#[trigger] r.0.transitions@[i].guard.holds(s)) == (t.guard.holds(s)
                    && forbidden.holds(t.transfer.apply_map(s)))
            },
        forall|i: int, s: Map<u64, StateValue>|
            0 <= i < blueprint.transitions@.len() ==> {
                let t = blueprint.transitions@[i];
                (#[trigger] r.1.transitions@[i].guard.holds(s)) == (t.guard.holds(s)
                    && !forbidden.holds(t.transfer.apply_map(s)))
            },
{
    let ghost ts = blueprint.transitions@;
    let mut into_transitions: Vec<Transition> = Vec::new();
    let mut astray_transitions: Vec<Transition> = Vec::new();
    let mut i: usize = 0;
    while i < blueprint.transitions.len()
        invariant
            blueprint.transitions@ == ts,
            i <= ts.len(),
            into_transitions@.len() == i,
            astray_transitions@.len() == i,
            forall|l: int|
                0 <= l < i ==> {
                    let t = ts[l];
                    let into = #[trigger] into_transitions@[l];
                    let astray = astray_transitions@[l];
                    &&& into.id == t.id && astray.id == t.id
                    &&& into.event_id == t.event_id && astray.event_id == t.event_id
                    &&& into.transfer == t.transfer && astray.transfer == t.transfer
                    &&& into.priority == t.priority && astray.priority == t.priority
                    &&& into.on_tran == t.on_tran && astray.on_tran == t.on_tran
                },
            forall|l: int, s: Map<u64, StateValue>|
                0 <= l < i ==> (#[trigger] into_transitions@[l].guard.holds(s)) == (
                ts[l].guard.holds(s) && forbidden.holds(ts[l].transfer.apply_map(s))),
            forall|l: int, s: Map<u64, StateValue>|
                0 <= l < i ==> (#[trigger] astray_transitions@[l].guard.holds(s)) == (
                ts[l].guard.holds(s) && !forbidden.holds(ts[l].transfer.apply_map(s))),
        decreases ts.len() - i,
    {
        let t = &blueprint.transitions[i];
        let (into_guard, astray_guard) = partition_range_by_transfer_target(
            t.guard.clone(),
            forbidden.clone(),
            t.transfer.clone(),
        );
        into_transitions.push(
            Transition {
                id: t.id,
                event_id: t.event_id,
                guard: into_guard,
                transfer: t.transfer.clone(),
                priority: t.priority,
                on_tran: t.on_tran,
            },
        );
        astray_transitions.push(
            Transition {
                id: t.id,
                event_id: t.event_id,
                guard: astray_guard,
                transfer: t.transfer.clone(),
                priority: t.priority,
                on_tran: t.on_tran,
            },
        );
        i = i + 1;
    }
    let base_into = blueprint.clone();
    let base_astray = blueprint;
    let into_forbidden = StateMachineBlueprint {
        aspects: base_into.aspects,
        events: base_into.events,
        transitions: into_transitions,
        observers: base_into.observers,
    };
    let not_into_forbidden = StateMachineBlueprint {
        aspects: base_astray.aspects,
        events: base_astray.events,
        transitions: astray_transitions,
        observers: base_astray.observers,
    };
    (into_forbidden, not_into_forbidden)
}

} // verus!
