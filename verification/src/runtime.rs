//! The runtime engine: holds a blueprint, the current state and one pending
//! transition slot, and implements the two-step event protocol. The resolve
//! step stages at most one transition; the apply step commits it and reports
//! the callbacks that fire, in order, as a log.

use vstd::prelude::*;

verus! {

use crate::blueprint::StateMachineBlueprint;
use crate::state::State;
use crate::state_observer::StateObserver;
use crate::transition::Transition;
use crate::types::{CallbackId, EventId, StateValue};

/// One callback that fires during a committed transition, identified by the
/// handle under which the embedding application registered it. The engine
/// reports these in execution order; dispatching them is the caller's part.
#[derive(Clone, Copy, PartialEq, Eq, Structural, Debug)]
pub enum CallbackEvent {
    /// An observer's exit callback; it is owed the pre-transition state.
    Exit(CallbackId),
    /// The transition's own callback; it is owed the pre- and
    /// post-transition states.
    Tran(CallbackId),
    /// An observer's enter callback; it is owed the post-transition state.
    Enter(CallbackId),
}

/// Whether the transition at index `i` is a candidate for event `e` in state
/// `s`: it is triggered by `e` and its guard admits `s`.
pub open spec fn is_candidate(
    ts: Seq<Transition>,
    e: EventId,
    s: Map<u64, StateValue>,
    i: int,
) -> bool {
    0 <= i < ts.len() && ts[i].event_id == e && ts[i].guard.holds(s)
}

/// The winning candidate among the first `n` transitions: the candidate of
/// strictly highest priority, and the earliest-declared among candidates
/// sharing that priority.
pub open spec fn winner_index_upto(
    ts: Seq<Transition>,
    e: EventId,
    s: Map<u64, StateValue>,
    n: int,
) -> Option<int>
    decreases n,
{
    if n <= 0 {
        None
    } else {
        let prev = winner_index_upto(ts, e, s, n - 1);
        if is_candidate(ts, e, s, n - 1) {
            match prev {
                None => Some(n - 1),
                Some(w) => if ts[n - 1].priority > ts[w].priority {
                    Some(n - 1)
                } else {
                    Some(w)
                },
            }
        } else {
            prev
        }
    }
}

/// The index of the winning candidate for event `e` in state `s`, if any.
pub open spec fn winner_index(ts: Seq<Transition>, e: EventId, s: Map<u64, StateValue>) -> Option<
    int,
> {
    winner_index_upto(ts, e, s, ts.len() as int)
}

/// What the resolve step stages: the winning transition, or nothing when no
/// guard is satisfied.
pub open spec fn resolved_pending(
    ts: Seq<Transition>,
    e: EventId,
    s: Map<u64, StateValue>,
) -> Option<Transition> {
    match winner_index(ts, e, s) {
        None => None,
        Some(i) => Some(ts[i]),
    }
}

/// The state after the apply step: unchanged when nothing is pending,
/// otherwise the pending transition's transfer applied to `s`.
pub open spec fn committed_state(
    pending: Option<Transition>,
    s: Map<u64, StateValue>,
) -> Map<u64, StateValue> {
    match pending {
        None => s,
        Some(t) => t.transfer.apply_map(s),
    }
}

/// Whether the committed transition exits the observer's region: the
/// pre-transition state is inside it and the post-transition state is not.
pub open spec fn observer_exits(
    o: StateObserver,
    pre: Map<u64, StateValue>,
    post: Map<u64, StateValue>,
) -> bool {
    o.region.holds(pre) && !o.region.holds(post)
}

/// Whether the committed transition enters the observer's region.
pub open spec fn observer_enters(
    o: StateObserver,
    pre: Map<u64, StateValue>,
    post: Map<u64, StateValue>,
) -> bool {
    !o.region.holds(pre) && o.region.holds(post)
}

/// The exit callbacks reported for the first `n` observers, in declaration
/// order: one event per observer whose region the transition exits and that
/// registered an exit callback.
pub open spec fn exit_calls_upto(
    obs: Seq<StateObserver>,
    pre: Map<u64, StateValue>,
    post: Map<u64, StateValue>,
    n: int,
) -> Seq<CallbackEvent>
    decreases n,
{
    if n <= 0 {
        Seq::empty()
    } else {
        let rest = exit_calls_upto(obs, pre, post, n - 1);
        if observer_exits(obs[n - 1], pre, post) && obs[n - 1].on_exit is Some {
            rest.push(CallbackEvent::Exit(obs[n - 1].on_exit->0))
        } else {
            rest
        }
    }
}

/// The exit callbacks reported for a committed transition, in declaration
/// order.
pub open spec fn exit_calls(
    obs: Seq<StateObserver>,
    pre: Map<u64, StateValue>,
    post: Map<u64, StateValue>,
) -> Seq<CallbackEvent> {
    exit_calls_upto(obs, pre, post, obs.len() as int)
}

/// The enter callbacks reported for the first `n` observers, in declaration
/// order.
pub open spec fn enter_calls_upto(
    obs: Seq<StateObserver>,
    pre: Map<u64, StateValue>,
    post: Map<u64, StateValue>,
    n: int,
) -> Seq<CallbackEvent>
    decreases n,
{
    if n <= 0 {
        Seq::empty()
    } else {
        let rest = enter_calls_upto(obs, pre, post, n - 1);
        if observer_enters(obs[n - 1], pre, post) && obs[n - 1].on_enter is Some {
            rest.push(CallbackEvent::Enter(obs[n - 1].on_enter->0))
        } else {
            rest
        }
    }
}

/// The enter callbacks reported for a committed transition, in declaration
/// order.
pub open spec fn enter_calls(
    obs: Seq<StateObserver>,
    pre: Map<u64, StateValue>,
    post: Map<u64, StateValue>,
) -> Seq<CallbackEvent> {
    enter_calls_upto(obs, pre, post, obs.len() as int)
}

/// The transition's own callback, if it registered one; it always fires when
/// the transition commits.
pub open spec fn tran_calls(t: Transition) -> Seq<CallbackEvent> {
    match t.on_tran {
        None => Seq::empty(),
        Some(h) => seq![CallbackEvent::Tran(h)],
    }
}

/// Everything the apply step reports: nothing when no transition is pending;
/// otherwise all exit callbacks, then the transition's own callback, then
/// all enter callbacks.
pub open spec fn fired_calls(
    pending: Option<Transition>,
    obs: Seq<StateObserver>,
    pre: Map<u64, StateValue>,
) -> Seq<CallbackEvent> {
    match pending {
        None => Seq::empty(),
        Some(t) => {
            let post = t.transfer.apply_map(pre);
            exit_calls(obs, pre, post) + tran_calls(t) + enter_calls(obs, pre, post)
        },
    }
}

/// A running machine: a blueprint, the current state, and the pending
/// transition slot of the two-step protocol. Mutated only through
/// `event_happen` and `transform`; the caller must serialize access.
pub struct RuntimeStateMachine {
    /// The machine's shape.
    pub blueprint: StateMachineBlueprint,
    /// The current state.
    pub current_state: State,
    /// The staged transition between the resolve and apply steps, if any.
    /// Written only by the two protocol steps.
    pub pending_transition: Option<Transition>,
}

impl RuntimeStateMachine {
    /// The staged transition between the resolve and apply steps, if any.
    pub open spec fn pending(self) -> Option<Transition> {
        self.pending_transition
    }

    /// A machine at its initial state, with nothing pending.
    pub fn new(blueprint: StateMachineBlueprint, initial_state: State) -> (r: Self)
        ensures
            r.blueprint == blueprint,
            r.current_state == initial_state,
            r.pending() is None,
    {
        RuntimeStateMachine { blueprint, current_state: initial_state, pending_transition: None }
    }

    /// The resolve step: stages the winning transition for `event_id` in the
    /// current state — the satisfied-guard candidate of strictly highest
    /// priority, earliest-declared on a tie — or nothing when no guard is
    /// satisfied. Any transition staged earlier and never applied is
    /// discarded. The payload is accepted for future extension and has no
    /// effect.
    pub fn event_happen(&mut self, event_id: EventId, _payload: Option<StateValue>)
        ensures
            final(self).blueprint == old(self).blueprint,
            final(self).current_state == old(self).current_state,
            final(self).pending() == resolved_pending(
                old(self).blueprint.transitions@,
                event_id,
                old(self).current_state@,
            ),
    {
        let ghost ts = self.blueprint.transitions@;
        let ghost s = self.current_state@;
        let mut best: Option<usize> = None;
        let mut i: usize = 0;
        while i < self.blueprint.transitions.len()
            invariant
                self.blueprint.transitions@ == ts,
                self.current_state@ == s,
                *self == *old(self),
                i <= ts.len(),
                match best {
                    None => winner_index_upto(ts, event_id, s, i as int) == None::<int>,
                    Some(w) => w < i && winner_index_upto(ts, event_id, s, i as int) == Some(
                        w as int,
                    ),
                },
            decreases ts.len() - i,
        {
            let t = &self.blueprint.transitions[i];
            if t.event_id == event_id && t.guard.contains(&self.current_state) {
                best = match best {
                    None => Some(i),
                    Some(w) => if t.priority > self.blueprint.transitions[w].priority {
                        Some(i)
                    } else {
                        Some(w)
                    },
                };
            }
            i = i + 1;
        }
        self.pending_transition = match best {
            None => None,
            Some(w) => Some(self.blueprint.transitions[w].clone()),
        };
    }

    /// The apply step: commits the pending transition, if any. The next
    /// state is the transfer applied to the current state; the returned log
    /// reports, in execution order, the exit callbacks of observers whose
    /// region the transition leaves, then the transition's own callback,
    /// then the enter callbacks of observers whose region it enters — each
    /// judged by evaluating the region on the pre- and post-transition
    /// states exactly once. With nothing pending the machine is untouched
    /// and the log is empty.
    pub fn transform(&mut self) -> (log: Vec<CallbackEvent>)
        ensures
            final(self).blueprint == old(self).blueprint,
            final(self).pending() is None,
            final(self).current_state@ == committed_state(
                old(self).pending(),
                old(self).current_state@,
            ),
            old(self).pending() is None ==> final(self).current_state == old(self).current_state,
            log@ == fired_calls(
                old(self).pending(),
                old(self).blueprint.observers@,
                old(self).current_state@,
            ),
    {
        let staged = self.pending_transition.take();
        match staged {
            None => {
                let log: Vec<CallbackEvent> = Vec::new();
                proof {
                    assert(log@ =~= Seq::<CallbackEvent>::empty());
                }
                log
            },
            Some(transition) => {
                let next_state = transition.transfer.apply(&self.current_state);
                let ghost obs = self.blueprint.observers@;
                let ghost pre = self.current_state@;
                let ghost post = next_state@;
                let mut exits: Vec<CallbackEvent> = Vec::new();
                let mut enters: Vec<CallbackEvent> = Vec::new();
                let mut i: usize = 0;
                proof {
                    assert(exits@ =~= exit_calls_upto(obs, pre, post, 0));
                    assert(enters@ =~= enter_calls_upto(obs, pre, post, 0));
                }
                while i < self.blueprint.observers.len()
                    invariant
                        self.blueprint.observers@ == obs,
                        self.current_state@ == pre,
                        next_state@ == post,
                        i <= obs.len(),
                        exits@ == exit_calls_upto(obs, pre, post, i as int),
                        enters@ == enter_calls_upto(obs, pre, post, i as int),
                    decreases obs.len() - i,
                {
                    let observer = &self.blueprint.observers[i];
                    let was_in = observer.region.contains(&self.current_state);
                    let now_in = observer.region.contains(&next_state);
                    if was_in && !now_in {
                        if let Some(h) = observer.on_exit {
                            exits.push(CallbackEvent::Exit(h));
                        }
                    }
                    if !was_in && now_in {
                        if let Some(h) = observer.on_enter {
                            enters.push(CallbackEvent::Enter(h));
                        }
                    }
                    i = i + 1;
                }
                let mut log = exits;
                if let Some(h) = transition.on_tran {
                    log.push(CallbackEvent::Tran(h));
                }
                let mut tail = enters;
                log.append(&mut tail);
                proof {
                    assert(log@ =~= exit_calls(obs, pre, post) + tran_calls(transition)
                        + enter_calls(obs, pre, post));
                }
                self.current_state = next_state;
                log
            },
        }
    }
}

/// How many times a callback event occurs in a log.
pub open spec fn occurrences(log: Seq<CallbackEvent>, c: CallbackEvent) -> nat
    decreases log.len(),
{
    if log.len() == 0 {
        0
    } else {
        occurrences(log.drop_last(), c) + if log.last() == c {
            1nat
        } else {
            0nat
        }
    }
}

proof fn lemma_winner_upto_none(ts: Seq<Transition>, e: EventId, s: Map<u64, StateValue>, n: int)
    requires
        forall|i: int| !is_candidate(ts, e, s, i),
    ensures
        winner_index_upto(ts, e, s, n) is None,
    decreases n,
{
    if n > 0 {
        lemma_winner_upto_none(ts, e, s, n - 1);
    }
}

/// An event with no satisfied guard is a no-op: the resolve step stages
/// nothing, so the apply step leaves the state unchanged and reports no
/// callback.
pub proof fn lemma_unmatched_event_is_noop(
    ts: Seq<Transition>,
    obs: Seq<StateObserver>,
    e: EventId,
    s: Map<u64, StateValue>,
)
    requires
        forall|i: int| !is_candidate(ts, e, s, i),
    ensures
        resolved_pending(ts, e, s) is None,
        committed_state(resolved_pending(ts, e, s), s) == s,
        fired_calls(resolved_pending(ts, e, s), obs, s) == Seq::<CallbackEvent>::empty(),
{
    lemma_winner_upto_none(ts, e, s, ts.len() as int);
}

proof fn lemma_winner_upto_best(ts: Seq<Transition>, e: EventId, s: Map<u64, StateValue>, n: int)
    requires
        0 <= n <= ts.len(),
    ensures
        winner_index_upto(ts, e, s, n) is None ==> forall|i: int|
            i < n ==> !is_candidate(ts, e, s, i),
        winner_index_upto(ts, e, s, n) matches Some(w) ==> {
            &&& 0 <= w < n
            &&& is_candidate(ts, e, s, w)
            &&& forall|i: int|
                0 <= i < n && is_candidate(ts, e, s, i) ==> ts[i].priority <= ts[w].priority
            &&& forall|i: int|
                0 <= i < n && is_candidate(ts, e, s, i) && ts[i].priority == ts[w].priority ==> w
                    <= i
        },
    decreases n,
{
    if n > 0 {
        lemma_winner_upto_best(ts, e, s, n - 1);
    }
}

/// The resolve step is deterministic and picks the best candidate: when no
/// candidate exists nothing is staged; otherwise the staged transition is a
/// candidate whose priority is maximal among the candidates, and the
/// earliest-declared among those sharing that maximum.
pub proof fn lemma_winner_is_best(ts: Seq<Transition>, e: EventId, s: Map<u64, StateValue>)
    ensures
        winner_index(ts, e, s) is None ==> forall|i: int| !is_candidate(ts, e, s, i),
        winner_index(ts, e, s) matches Some(w) ==> {
            &&& is_candidate(ts, e, s, w)
            &&& resolved_pending(ts, e, s) == Some(ts[w])
            &&& forall|i: int| is_candidate(ts, e, s, i) ==> ts[i].priority <= ts[w].priority
            &&& forall|i: int|
                is_candidate(ts, e, s, i) && ts[i].priority == ts[w].priority ==> w <= i
        },
{
    lemma_winner_upto_best(ts, e, s, ts.len() as int);
}

proof fn lemma_exit_occurrences_upto(
    obs: Seq<StateObserver>,
    pre: Map<u64, StateValue>,
    post: Map<u64, StateValue>,
    j: int,
    n: int,
)
    requires
        0 <= j < obs.len(),
        obs[j].on_exit is Some,
        n <= obs.len(),
        forall|l: int| 0 <= l < obs.len() && l != j ==> (#[trigger] obs[l]).on_exit != obs[j].on_exit,
    ensures
        occurrences(exit_calls_upto(obs, pre, post, n), CallbackEvent::Exit(obs[j].on_exit->0))
            == if j < n && observer_exits(obs[j], pre, post) {
            1nat
        } else {
            0nat
        },
    decreases n,
{
    if n > 0 {
        lemma_exit_occurrences_upto(obs, pre, post, j, n - 1);
        let rest = exit_calls_upto(obs, pre, post, n - 1);
        if observer_exits(obs[n - 1], pre, post) && obs[n - 1].on_exit is Some {
            let ev = CallbackEvent::Exit(obs[n - 1].on_exit->0);
            assert(rest.push(ev).drop_last() =~= rest);
        }
    }
}

proof fn lemma_exit_calls_occurrences(
    obs: Seq<StateObserver>,
    pre: Map<u64, StateValue>,
    post: Map<u64, StateValue>,
    j: int,
)
    requires
        0 <= j < obs.len(),
        obs[j].on_exit is Some,
        forall|l: int| 0 <= l < obs.len() && l != j ==> (#[trigger] obs[l]).on_exit != obs[j].on_exit,
    ensures
        occurrences(exit_calls(obs, pre, post), CallbackEvent::Exit(obs[j].on_exit->0))
            == if observer_exits(obs[j], pre, post) {
            1nat
        } else {
            0nat
        },
{
    lemma_exit_occurrences_upto(obs, pre, post, j, obs.len() as int);
}

proof fn lemma_enter_occurrences_upto(
    obs: Seq<StateObserver>,
    pre: Map<u64, StateValue>,
    post: Map<u64, StateValue>,
    j: int,
    n: int,
)
    requires
        0 <= j < obs.len(),
        obs[j].on_enter is Some,
        n <= obs.len(),
        forall|l: int|
            0 <= l < obs.len() && l != j ==> (#[trigger] obs[l]).on_enter != obs[j].on_enter,
    ensures
        occurrences(enter_calls_upto(obs, pre, post, n), CallbackEvent::Enter(obs[j].on_enter->0))
            == if j < n && observer_enters(obs[j], pre, post) {
            1nat
        } else {
            0nat
        },
    decreases n,
{
    if n > 0 {
        lemma_enter_occurrences_upto(obs, pre, post, j, n - 1);
        let rest = enter_calls_upto(obs, pre, post, n - 1);
        if observer_enters(obs[n - 1], pre, post) && obs[n - 1].on_enter is Some {
            let ev = CallbackEvent::Enter(obs[n - 1].on_enter->0);
            assert(rest.push(ev).drop_last() =~= rest);
        }
    }
}

proof fn lemma_enter_calls_occurrences(
    obs: Seq<StateObserver>,
    pre: Map<u64, StateValue>,
    post: Map<u64, StateValue>,
    j: int,
)
    requires
        0 <= j < obs.len(),
        obs[j].on_enter is Some,
        forall|l: int|
            0 <= l < obs.len() && l != j ==> (#[trigger] obs[l]).on_enter != obs[j].on_enter,
    ensures
        occurrences(enter_calls(obs, pre, post), CallbackEvent::Enter(obs[j].on_enter->0))
            == if observer_enters(obs[j], pre, post) {
            1nat
        } else {
            0nat
        },
{
    lemma_enter_occurrences_upto(obs, pre, post, j, obs.len() as int);
}

proof fn lemma_occurrences_concat(a: Seq<CallbackEvent>, b: Seq<CallbackEvent>, c: CallbackEvent)
    ensures
        occurrences(a + b, c) == occurrences(a, c) + occurrences(b, c),
    decreases b.len(),
{
    if b.len() == 0 {
        assert(a + b =~= a);
    } else {
        assert((a + b).drop_last() =~= a + b.drop_last());
        lemma_occurrences_concat(a, b.drop_last(), c);
    }
}

proof fn lemma_occurrences_zero_by_phase(s: Seq<CallbackEvent>, c: CallbackEvent)
    requires
        forall|k: int| 0 <= k < s.len() ==> call_phase(#[trigger] s[k]) != call_phase(c),
    ensures
        occurrences(s, c) == 0,
    decreases s.len(),
{
    if s.len() > 0 {
        assert forall|k: int| 0 <= k < s.drop_last().len() implies call_phase(
            #[trigger] s.drop_last()[k],
        ) != call_phase(c) by {
            assert(s.drop_last()[k] == s[k]);
        }
        lemma_occurrences_zero_by_phase(s.drop_last(), c);
        assert(s[s.len() - 1] != c);
    }
}

/// Across one committed transition, the reported log holds an observer's
/// exit callback exactly once when the region's truth value flips from
/// inside to outside, and never when it does not — provided no other
/// observer registered the same exit-callback handle.
pub proof fn lemma_exit_fires_exactly_once(
    pending: Option<Transition>,
    obs: Seq<StateObserver>,
    pre: Map<u64, StateValue>,
    j: int,
)
    requires
        pending is Some,
        0 <= j < obs.len(),
        obs[j].on_exit is Some,
        forall|l: int| 0 <= l < obs.len() && l != j ==> (#[trigger] obs[l]).on_exit != obs[j].on_exit,
    ensures
        ({
            let t = pending->0;
            let post = t.transfer.apply_map(pre);
            occurrences(fired_calls(pending, obs, pre), CallbackEvent::Exit(obs[j].on_exit->0))
                == if observer_exits(obs[j], pre, post) {
                1nat
            } else {
                0nat
            }
        }),
{
    let t = pending->0;
    let post = t.transfer.apply_map(pre);
    let ev = CallbackEvent::Exit(obs[j].on_exit->0);
    lemma_exit_calls_occurrences(obs, pre, post, j);
    lemma_enter_calls_phase(obs, pre, post, obs.len() as int);
    lemma_occurrences_zero_by_phase(enter_calls(obs, pre, post), ev);
    lemma_occurrences_zero_by_phase(tran_calls(t), ev);
    lemma_occurrences_concat(exit_calls(obs, pre, post), tran_calls(t), ev);
    lemma_occurrences_concat(exit_calls(obs, pre, post) + tran_calls(t), enter_calls(obs, pre, post), ev);
}

/// Across one committed transition, the reported log holds an observer's
/// enter callback exactly once when the region's truth value flips from
/// outside to inside, and never when it does not — provided no other
/// observer registered the same enter-callback handle.
pub proof fn lemma_enter_fires_exactly_once(
    pending: Option<Transition>,
    obs: Seq<StateObserver>,
    pre: Map<u64, StateValue>,
    j: int,
)
    requires
        pending is Some,
        0 <= j < obs.len(),
        obs[j].on_enter is Some,
        forall|l: int|
            0 <= l < obs.len() && l != j ==> (#[trigger] obs[l]).on_enter != obs[j].on_enter,
    ensures
        ({
            let t = pending->0;
            let post = t.transfer.apply_map(pre);
            occurrences(fired_calls(pending, obs, pre), CallbackEvent::Enter(obs[j].on_enter->0))
                == if observer_enters(obs[j], pre, post) {
                1nat
            } else {
                0nat
            }
        }),
{
    let t = pending->0;
    let post = t.transfer.apply_map(pre);
    let ev = CallbackEvent::Enter(obs[j].on_enter->0);
    lemma_enter_calls_occurrences(obs, pre, post, j);
    lemma_exit_calls_phase(obs, pre, post, obs.len() as int);
    lemma_occurrences_zero_by_phase(exit_calls(obs, pre, post), ev);
    lemma_occurrences_zero_by_phase(tran_calls(t), ev);
    lemma_occurrences_concat(exit_calls(obs, pre, post), tran_calls(t), ev);
    lemma_occurrences_concat(exit_calls(obs, pre, post) + tran_calls(t), enter_calls(obs, pre, post), ev);
}

/// The phase of a callback in the fixed execution order: exit callbacks
/// first, then the transition's own callback, then enter callbacks.
pub open spec fn call_phase(c: CallbackEvent) -> int {
    match c {
        CallbackEvent::Exit(_) => 0,
        CallbackEvent::Tran(_) => 1,
        CallbackEvent::Enter(_) => 2,
    }
}

proof fn lemma_exit_calls_phase(
    obs: Seq<StateObserver>,
    pre: Map<u64, StateValue>,
    post: Map<u64, StateValue>,
    n: int,
)
    ensures
        forall|k: int|
            0 <= k < exit_calls_upto(obs, pre, post, n).len() ==> call_phase(
                #[trigger] exit_calls_upto(obs, pre, post, n)[k],
            ) == 0,
    decreases n,
{
    if n > 0 {
        lemma_exit_calls_phase(obs, pre, post, n - 1);
        let rest = exit_calls_upto(obs, pre, post, n - 1);
        let whole = exit_calls_upto(obs, pre, post, n);
        assert forall|k: int| 0 <= k < whole.len() implies call_phase(#[trigger] whole[k])
            == 0 by {
            if k < rest.len() {
                assert(whole[k] == rest[k]);
            }
        }
    }
}

proof fn lemma_enter_calls_phase(
    obs: Seq<StateObserver>,
    pre: Map<u64, StateValue>,
    post: Map<u64, StateValue>,
    n: int,
)
    ensures
        forall|k: int|
            0 <= k < enter_calls_upto(obs, pre, post, n).len() ==> call_phase(
                #[trigger] enter_calls_upto(obs, pre, post, n)[k],
            ) == 2,
    decreases n,
{
    if n > 0 {
        lemma_enter_calls_phase(obs, pre, post, n - 1);
        let rest = enter_calls_upto(obs, pre, post, n - 1);
        let whole = enter_calls_upto(obs, pre, post, n);
        assert forall|k: int| 0 <= k < whole.len() implies call_phase(#[trigger] whole[k])
            == 2 by {
            if k < rest.len() {
                assert(whole[k] == rest[k]);
            }
        }
    }
}

/// The reported log keeps the fixed execution order: every exit callback
/// precedes the transition's own callback, which precedes every enter
/// callback.
pub proof fn lemma_callback_order(
    pending: Option<Transition>,
    obs: Seq<StateObserver>,
    pre: Map<u64, StateValue>,
)
    ensures
        forall|i: int, j: int|
            0 <= i < j < fired_calls(pending, obs, pre).len() ==> call_phase(
                #[trigger] fired_calls(pending, obs, pre)[i],
            ) <= call_phase(#[trigger] fired_calls(pending, obs, pre)[j]),
{
    match pending {
        None => {},
        Some(t) => {
            let post = t.transfer.apply_map(pre);
            lemma_exit_calls_phase(obs, pre, post, obs.len() as int);
            lemma_enter_calls_phase(obs, pre, post, obs.len() as int);
            let log = fired_calls(pending, obs, pre);
            let exits = exit_calls(obs, pre, post);
            let trans = tran_calls(t);
            let enters = enter_calls(obs, pre, post);
            assert forall|i: int| 0 <= i < log.len() implies (call_phase(#[trigger] log[i]) == 0
                ==> i < exits.len()) && (call_phase(log[i]) <= 2) && (i >= exits.len()
                + trans.len() ==> call_phase(log[i]) == 2) && (call_phase(log[i]) == 1 ==> i
                >= exits.len()) by {
                if i < exits.len() {
                    assert(log[i] == exits[i]);
                } else if i < exits.len() + trans.len() {
                    assert(log[i] == trans[i - exits.len()]);
                } else {
                    assert(log[i] == enters[i - exits.len() - trans.len()]);
                }
            }
        },
    }
}

} // verus!
