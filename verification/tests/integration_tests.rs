use state_zen::{
    states_equal, AspectTest, CallbackEvent, EventDef, RuntimeStateMachine, State, StateAspect,
    StateInRange, StateMachineBlueprint, StateObserver, StateValue, Transfer, TransferOp,
    Transition, ValueTag,
};

// The player's action aspect: a symbolic value.
const ACTION_ASPECT_ID: u64 = 1;
const IDLE: u64 = 0;
const WALK: u64 = 1;

// The player's hunger aspect: an integer value.
const HUNGER_ASPECT_ID: u64 = 2;

fn get_action(runtime: &RuntimeStateMachine) -> Option<StateValue> {
    runtime.current_state.get(ACTION_ASPECT_ID)
}

fn get_hunger(runtime: &RuntimeStateMachine) -> Option<i64> {
    match runtime.current_state.get(HUNGER_ASPECT_ID) {
        Some(StateValue::Int(v)) => Some(v),
        _ => None,
    }
}

fn create_player_blueprint() -> (StateMachineBlueprint, State) {
    let action_aspect = StateAspect {
        id: ACTION_ASPECT_ID,
        value_type_id: ValueTag::Sym,
    };

    let press_w_event = EventDef {
        id: 100,
        payload_type_id: ValueTag::Unit,
    };

    let is_idle = StateInRange::new(AspectTest::ValueIs(ACTION_ASPECT_ID, StateValue::Sym(IDLE)));
    let is_walking =
        StateInRange::new(AspectTest::ValueIs(ACTION_ASPECT_ID, StateValue::Sym(WALK)));

    let press_w_to_walk = Transfer::new(TransferOp::Assign(ACTION_ASPECT_ID, StateValue::Sym(WALK)));
    let press_s_to_idle = Transfer::new(TransferOp::Assign(ACTION_ASPECT_ID, StateValue::Sym(IDLE)));

    let mut blueprint = StateMachineBlueprint::new();
    blueprint.aspects.insert(action_aspect.id, action_aspect);
    blueprint.events.insert(press_w_event.id, press_w_event);

    // Walk transition
    blueprint.transitions.push(Transition {
        id: 1,
        event_id: 100,
        guard: is_idle.clone(),
        transfer: press_w_to_walk,
        priority: 0,
        on_tran: None,
    });

    // Idle transition
    let press_s_event = EventDef {
        id: 101,
        payload_type_id: ValueTag::Unit,
    };
    blueprint.events.insert(press_s_event.id, press_s_event);
    blueprint.transitions.push(Transition {
        id: 2,
        event_id: 101,
        guard: is_walking,
        transfer: press_s_to_idle,
        priority: 0,
        on_tran: None,
    });

    // Observer
    blueprint.observers.push(StateObserver {
        id: 1,
        region: StateInRange::new(AspectTest::ValueIs(ACTION_ASPECT_ID, StateValue::Sym(WALK))),
        on_enter: None,
        on_exit: None,
    });

    let initial_state: State = {
        let mut s = State::new();
        s.insert(ACTION_ASPECT_ID, StateValue::Sym(IDLE));
        s
    };

    (blueprint, initial_state)
}

fn create_hunger_blueprint() -> (StateMachineBlueprint, State) {
    let hunger_aspect = StateAspect {
        id: HUNGER_ASPECT_ID,
        value_type_id: ValueTag::Int,
    };

    // Event: eat (+5 satiety, capped at 20)
    let eat_event = EventDef {
        id: 200,
        payload_type_id: ValueTag::Unit,
    };

    // Event: starve (-1 satiety, floored at 0)
    let starve_event = EventDef {
        id: 201,
        payload_type_id: ValueTag::Unit,
    };

    // Predicate: hungry (<= 5)
    let is_hungry = StateInRange::new(AspectTest::IntAtMost(HUNGER_ASPECT_ID, 5));

    let eat_transfer = Transfer::new(TransferOp::AddClamp {
        aspect: HUNGER_ASPECT_ID,
        delta: 5,
        lo: i64::MIN,
        hi: 20,
        missing: 0,
    });

    let starve_transfer = Transfer::new(TransferOp::AddClamp {
        aspect: HUNGER_ASPECT_ID,
        delta: -1,
        lo: 0,
        hi: i64::MAX,
        missing: 20,
    });

    let mut blueprint = StateMachineBlueprint::new();
    blueprint.aspects.insert(hunger_aspect.id, hunger_aspect);
    blueprint.events.insert(eat_event.id, eat_event);
    blueprint.events.insert(starve_event.id, starve_event);

    // Eat transition (possible in any state)
    blueprint.transitions.push(Transition {
        id: 3,
        event_id: 200,
        guard: StateInRange::new(AspectTest::Always),
        transfer: eat_transfer,
        priority: 0,
        on_tran: None,
    });

    // Starve transition (possible in any state)
    blueprint.transitions.push(Transition {
        id: 4,
        event_id: 201,
        guard: StateInRange::new(AspectTest::Always),
        transfer: starve_transfer,
        priority: 0,
        on_tran: None,
    });

    // Observer: entering the hungry region
    blueprint.observers.push(StateObserver {
        id: 3,
        region: is_hungry,
        on_enter: None,
        on_exit: None,
    });

    // Initial state: satiety = 10
    let initial_state: State = {
        let mut s = State::new();
        s.insert(HUNGER_ASPECT_ID, StateValue::Int(10));
        s
    };

    (blueprint, initial_state)
}

#[test]
fn test_initial_state() {
    let (blueprint, initial_state) = create_player_blueprint();
    let runtime = RuntimeStateMachine::new(blueprint, initial_state);
    assert_eq!(get_action(&runtime), Some(StateValue::Sym(IDLE)));
}

#[test]
fn test_transition_idle_to_walk() {
    let (blueprint, initial_state) = create_player_blueprint();
    let mut runtime = RuntimeStateMachine::new(blueprint, initial_state);

    runtime.event_happen(100, None);
    runtime.transform();

    assert_eq!(get_action(&runtime), Some(StateValue::Sym(WALK)));
}

#[test]
fn test_transition_walk_to_idle() {
    let (blueprint, _) = create_player_blueprint();
    let mut runtime = RuntimeStateMachine::new(blueprint, {
        let mut s = State::new();
        s.insert(ACTION_ASPECT_ID, StateValue::Sym(WALK));
        s
    });

    runtime.event_happen(101, None);
    runtime.transform();

    assert_eq!(get_action(&runtime), Some(StateValue::Sym(IDLE)));
}

#[test]
fn test_no_transition_when_guard_fails() {
    let (blueprint, _) = create_player_blueprint();
    let mut runtime = RuntimeStateMachine::new(blueprint, {
        let mut s = State::new();
        s.insert(ACTION_ASPECT_ID, StateValue::Sym(WALK));
        s
    });

    // Pressing W while already walking must have no effect.
    let prev_state = runtime.current_state.clone();
    runtime.event_happen(100, None);
    runtime.transform();

    assert!(states_equal(&runtime.current_state, &prev_state));
}

#[test]
fn test_observer_triggers() {
    let (mut blueprint, initial_state) = create_player_blueprint();

    // An observer of the walking region with callbacks registered.
    const ENTER_CALLBACK: u64 = 11;
    const EXIT_CALLBACK: u64 = 12;
    blueprint.observers.push(StateObserver {
        id: 2,
        region: StateInRange::new(AspectTest::ValueIs(ACTION_ASPECT_ID, StateValue::Sym(WALK))),
        on_enter: Some(ENTER_CALLBACK),
        on_exit: Some(EXIT_CALLBACK),
    });

    let mut runtime = RuntimeStateMachine::new(blueprint, initial_state);

    // Idle -> Walk
    runtime.event_happen(100, None);
    let log = runtime.transform();
    assert!(log.contains(&CallbackEvent::Enter(ENTER_CALLBACK)));

    // Walk -> Idle
    runtime.event_happen(101, None);
    let log = runtime.transform();
    assert!(log.contains(&CallbackEvent::Exit(EXIT_CALLBACK)));
}

#[test]
fn test_blueprint_merge() {
    // 1. Two independent blueprints
    let (action_bp, action_state) = create_player_blueprint();
    let (hunger_bp, hunger_state) = create_hunger_blueprint();

    // 2. Merge the blueprints
    let merged_bp = action_bp.merge(&hunger_bp);

    // 3. Merge the initial states
    let initial_state = action_state.overlay(&hunger_state);

    // 4. Build the runtime
    let mut runtime = RuntimeStateMachine::new(merged_bp, initial_state);

    // Initial state
    assert_eq!(get_action(&runtime), Some(StateValue::Sym(IDLE)));
    assert_eq!(get_hunger(&runtime), Some(10));

    // 5. Action event: PressW -> Walk
    runtime.event_happen(100, None);
    runtime.transform();
    assert_eq!(get_action(&runtime), Some(StateValue::Sym(WALK)));
    assert_eq!(get_hunger(&runtime), Some(10)); // satiety unchanged

    // 6. Satiety event: Starve -> satiety - 1
    runtime.event_happen(201, None);
    runtime.transform();
    assert_eq!(get_action(&runtime), Some(StateValue::Sym(WALK))); // action unchanged
    assert_eq!(get_hunger(&runtime), Some(9));

    // 7. Action event again: PressS -> Idle
    runtime.event_happen(101, None);
    runtime.transform();
    assert_eq!(get_action(&runtime), Some(StateValue::Sym(IDLE)));
    assert_eq!(get_hunger(&runtime), Some(9));

    // 8. Eat -> satiety + 5
    runtime.event_happen(200, None);
    runtime.transform();
    assert_eq!(get_hunger(&runtime), Some(14));
}

#[test]
fn test_observer_in_merged_blueprint() {
    let (action_bp, action_state) = create_player_blueprint();
    let (hunger_bp, hunger_state) = create_hunger_blueprint();

    // A hunger observer with an enter callback registered.
    const HUNGER_ENTER_CALLBACK: u64 = 41;
    let mut hunger_bp_with_observer = hunger_bp.clone();
    hunger_bp_with_observer.observers.push(StateObserver {
        id: 4,
        region: StateInRange::new(AspectTest::IntAtMost(HUNGER_ASPECT_ID, 5)),
        on_enter: Some(HUNGER_ENTER_CALLBACK),
        on_exit: None,
    });

    let merged_bp = action_bp.merge(&hunger_bp_with_observer);
    let initial_state = action_state.overlay(&hunger_state);

    let mut runtime = RuntimeStateMachine::new(merged_bp, initial_state);

    // Starve six times: 10 -> 4, crossing into the hungry region.
    let mut enter_fired = false;
    for _ in 0..6 {
        runtime.event_happen(201, None);
        let log = runtime.transform();
        if log.contains(&CallbackEvent::Enter(HUNGER_ENTER_CALLBACK)) {
            enter_fired = true;
        }
    }

    assert_eq!(get_hunger(&runtime), Some(4));
    assert!(enter_fired);
}

#[test]
fn test_unmatched_event_fires_nothing() {
    let (blueprint, initial_state) = create_player_blueprint();
    let mut runtime = RuntimeStateMachine::new(blueprint, initial_state);

    // No transition listens to this event at all.
    let prev_state = runtime.current_state.clone();
    runtime.event_happen(999, None);
    let log = runtime.transform();

    assert!(log.is_empty());
    assert!(states_equal(&runtime.current_state, &prev_state));
}

#[test]
fn test_priority_highest_wins() {
    let mut blueprint = StateMachineBlueprint::new();
    blueprint.transitions.push(Transition {
        id: 1,
        event_id: 100,
        guard: StateInRange::new(AspectTest::Always),
        transfer: Transfer::new(TransferOp::Assign(ACTION_ASPECT_ID, StateValue::Sym(10))),
        priority: 1,
        on_tran: None,
    });
    blueprint.transitions.push(Transition {
        id: 2,
        event_id: 100,
        guard: StateInRange::new(AspectTest::Always),
        transfer: Transfer::new(TransferOp::Assign(ACTION_ASPECT_ID, StateValue::Sym(20))),
        priority: 5,
        on_tran: None,
    });

    let mut runtime = RuntimeStateMachine::new(blueprint, State::new());
    runtime.event_happen(100, None);
    runtime.transform();

    // The strictly higher priority wins, whatever the declaration order.
    assert_eq!(get_action(&runtime), Some(StateValue::Sym(20)));
}

#[test]
fn test_priority_tie_earliest_declared_wins() {
    let mut blueprint = StateMachineBlueprint::new();
    blueprint.transitions.push(Transition {
        id: 1,
        event_id: 100,
        guard: StateInRange::new(AspectTest::Always),
        transfer: Transfer::new(TransferOp::Assign(ACTION_ASPECT_ID, StateValue::Sym(10))),
        priority: 3,
        on_tran: None,
    });
    blueprint.transitions.push(Transition {
        id: 2,
        event_id: 100,
        guard: StateInRange::new(AspectTest::Always),
        transfer: Transfer::new(TransferOp::Assign(ACTION_ASPECT_ID, StateValue::Sym(20))),
        priority: 3,
        on_tran: None,
    });

    let mut runtime = RuntimeStateMachine::new(blueprint, State::new());
    runtime.event_happen(100, None);
    assert_eq!(runtime.pending_transition.as_ref().map(|t| t.id), Some(1));
    runtime.transform();

    // On a priority tie the earliest-declared transition wins.
    assert_eq!(get_action(&runtime), Some(StateValue::Sym(10)));
}

#[test]
fn test_callback_order_exit_tran_enter() {
    const EXIT_CALLBACK: u64 = 91;
    const TRAN_CALLBACK: u64 = 90;
    const ENTER_CALLBACK: u64 = 92;

    let mut blueprint = StateMachineBlueprint::new();
    // O1 watches the walking region (about to be exited).
    blueprint.observers.push(StateObserver {
        id: 1,
        region: StateInRange::new(AspectTest::ValueIs(ACTION_ASPECT_ID, StateValue::Sym(WALK))),
        on_enter: None,
        on_exit: Some(EXIT_CALLBACK),
    });
    // O2 watches the idle region (about to be entered).
    blueprint.observers.push(StateObserver {
        id: 2,
        region: StateInRange::new(AspectTest::ValueIs(ACTION_ASPECT_ID, StateValue::Sym(IDLE))),
        on_enter: Some(ENTER_CALLBACK),
        on_exit: None,
    });
    blueprint.transitions.push(Transition {
        id: 1,
        event_id: 101,
        guard: StateInRange::new(AspectTest::ValueIs(ACTION_ASPECT_ID, StateValue::Sym(WALK))),
        transfer: Transfer::new(TransferOp::Assign(ACTION_ASPECT_ID, StateValue::Sym(IDLE))),
        priority: 0,
        on_tran: Some(TRAN_CALLBACK),
    });

    let mut runtime = RuntimeStateMachine::new(blueprint, {
        let mut s = State::new();
        s.insert(ACTION_ASPECT_ID, StateValue::Sym(WALK));
        s
    });

    runtime.event_happen(101, None);
    let log = runtime.transform();

    // The sequencing log shows the fixed order: exit, then the transition's
    // own callback, then enter.
    assert_eq!(
        log,
        vec![
            CallbackEvent::Exit(EXIT_CALLBACK),
            CallbackEvent::Tran(TRAN_CALLBACK),
            CallbackEvent::Enter(ENTER_CALLBACK),
        ]
    );
}

#[test]
fn test_observer_silent_when_region_unchanged() {
    const ENTER_CALLBACK: u64 = 61;
    const EXIT_CALLBACK: u64 = 62;

    let (mut blueprint, _) = create_hunger_blueprint();
    blueprint.observers.push(StateObserver {
        id: 5,
        region: StateInRange::new(AspectTest::IntAtMost(HUNGER_ASPECT_ID, 5)),
        on_enter: Some(ENTER_CALLBACK),
        on_exit: Some(EXIT_CALLBACK),
    });

    let mut runtime = RuntimeStateMachine::new(blueprint, {
        let mut s = State::new();
        s.insert(HUNGER_ASPECT_ID, StateValue::Int(10));
        s
    });

    // 10 -> 9: the state stays outside the hungry region, so the observer
    // must stay silent.
    runtime.event_happen(201, None);
    let log = runtime.transform();
    assert!(!log.contains(&CallbackEvent::Enter(ENTER_CALLBACK)));
    assert!(!log.contains(&CallbackEvent::Exit(EXIT_CALLBACK)));
}

#[test]
fn test_observer_enter_fires_exactly_once() {
    const ENTER_CALLBACK: u64 = 71;

    let (mut blueprint, initial_state) = create_hunger_blueprint();
    blueprint.observers.push(StateObserver {
        id: 6,
        region: StateInRange::new(AspectTest::IntAtMost(HUNGER_ASPECT_ID, 5)),
        on_enter: Some(ENTER_CALLBACK),
        on_exit: None,
    });

    let mut runtime = RuntimeStateMachine::new(blueprint, initial_state);

    // Starve six times: 10 -> 4. The region boundary is crossed once, at
    // 6 -> 5, so the enter callback must be reported exactly once.
    let mut fired: usize = 0;
    for _ in 0..6 {
        runtime.event_happen(201, None);
        let log = runtime.transform();
        fired += log
            .iter()
            .filter(|c| **c == CallbackEvent::Enter(ENTER_CALLBACK))
            .count();
    }

    assert_eq!(get_hunger(&runtime), Some(4));
    assert_eq!(fired, 1);
}

#[test]
fn test_eat_caps_at_twenty() {
    let (blueprint, _) = create_hunger_blueprint();
    let mut runtime = RuntimeStateMachine::new(blueprint, {
        let mut s = State::new();
        s.insert(HUNGER_ASPECT_ID, StateValue::Int(18));
        s
    });

    runtime.event_happen(200, None);
    runtime.transform();
    assert_eq!(get_hunger(&runtime), Some(20));
}

#[test]
fn test_starve_floors_at_zero() {
    let (blueprint, _) = create_hunger_blueprint();
    let mut runtime = RuntimeStateMachine::new(blueprint, {
        let mut s = State::new();
        s.insert(HUNGER_ASPECT_ID, StateValue::Int(0));
        s
    });

    runtime.event_happen(201, None);
    runtime.transform();
    assert_eq!(get_hunger(&runtime), Some(0));
}

#[test]
fn test_merge_is_associative_on_lists() {
    let (a, _) = create_player_blueprint();
    let (b, _) = create_hunger_blueprint();
    let mut c = StateMachineBlueprint::new();
    c.transitions.push(Transition {
        id: 9,
        event_id: 300,
        guard: StateInRange::new(AspectTest::Always),
        transfer: Transfer::new(TransferOp::Keep),
        priority: 0,
        on_tran: None,
    });
    c.observers.push(StateObserver {
        id: 9,
        region: StateInRange::new(AspectTest::Always),
        on_enter: None,
        on_exit: None,
    });

    let left = a.merge(&b).merge(&c);
    let right = a.merge(&b.merge(&c));

    let left_transition_ids: Vec<u64> = left.transitions.iter().map(|t| t.id).collect();
    let right_transition_ids: Vec<u64> = right.transitions.iter().map(|t| t.id).collect();
    assert_eq!(left_transition_ids, right_transition_ids);
    assert_eq!(left_transition_ids, vec![1, 2, 3, 4, 9]);

    let left_observer_ids: Vec<u64> = left.observers.iter().map(|o| o.id).collect();
    let right_observer_ids: Vec<u64> = right.observers.iter().map(|o| o.id).collect();
    assert_eq!(left_observer_ids, right_observer_ids);
    assert_eq!(left_observer_ids, vec![1, 3, 9]);
}

#[test]
fn test_merge_last_writer_wins_on_collision() {
    let mut a = StateMachineBlueprint::new();
    a.aspects.insert(
        7,
        StateAspect {
            id: 7,
            value_type_id: ValueTag::Int,
        },
    );
    let mut b = StateMachineBlueprint::new();
    b.aspects.insert(
        7,
        StateAspect {
            id: 7,
            value_type_id: ValueTag::Sym,
        },
    );

    let merged = a.merge(&b);
    let declared = merged.aspects.get(7).unwrap();
    assert_eq!(declared.value_type_id, ValueTag::Sym);
}

#[test]
fn test_partition_by_transfer_target() {
    // a: hunger <= 10; b: hunger <= 5; f: hunger - 3 (floored at 0).
    let a = StateInRange::new(AspectTest::IntAtMost(HUNGER_ASPECT_ID, 10));
    let b = StateInRange::new(AspectTest::IntAtMost(HUNGER_ASPECT_ID, 5));
    let f = Transfer::new(TransferOp::AddClamp {
        aspect: HUNGER_ASPECT_ID,
        delta: -3,
        lo: 0,
        hi: i64::MAX,
        missing: 0,
    });

    let (lands, strays) =
        state_zen::partition_range_by_transfer_target(a.clone(), b.clone(), f.clone());

    let mut inside_landing = State::new();
    inside_landing.insert(HUNGER_ASPECT_ID, StateValue::Int(8)); // 8 - 3 = 5: lands in b
    let mut inside_straying = State::new();
    inside_straying.insert(HUNGER_ASPECT_ID, StateValue::Int(10)); // 10 - 3 = 7: misses b
    let mut outside = State::new();
    outside.insert(HUNGER_ASPECT_ID, StateValue::Int(11)); // outside a

    // For a state inside `a`, exactly one of the parts holds, and it tracks
    // where the transfer lands.
    assert!(a.contains(&inside_landing) && lands.contains(&inside_landing));
    assert!(!strays.contains(&inside_landing));
    assert_eq!(
        lands.contains(&inside_landing),
        b.contains(&f.apply(&inside_landing))
    );

    assert!(a.contains(&inside_straying) && strays.contains(&inside_straying));
    assert!(!lands.contains(&inside_straying));
    assert_eq!(
        lands.contains(&inside_straying),
        b.contains(&f.apply(&inside_straying))
    );

    // Outside `a`, neither part holds.
    assert!(!a.contains(&outside));
    assert!(!lands.contains(&outside) && !strays.contains(&outside));
}

#[test]
fn test_split_blueprint_by_forbidden_region() {
    let mut blueprint = StateMachineBlueprint::new();
    // Walking is always possible and always lands in the walking region.
    blueprint.transitions.push(Transition {
        id: 1,
        event_id: 100,
        guard: StateInRange::new(AspectTest::Always),
        transfer: Transfer::new(TransferOp::Assign(ACTION_ASPECT_ID, StateValue::Sym(WALK))),
        priority: 0,
        on_tran: None,
    });
    let forbidden = StateInRange::new(AspectTest::ValueIs(ACTION_ASPECT_ID, StateValue::Sym(WALK)));

    let (into_forbidden, not_into_forbidden) =
        state_zen::split_blueprint_by_forbidden_region(blueprint, forbidden);

    let mut s = State::new();
    s.insert(ACTION_ASPECT_ID, StateValue::Sym(IDLE));

    // Every state flows into the forbidden region under this transfer.
    assert!(into_forbidden.transitions[0].guard.contains(&s));
    assert!(!not_into_forbidden.transitions[0].guard.contains(&s));
    assert_eq!(into_forbidden.transitions[0].id, 1);
    assert_eq!(not_into_forbidden.transitions[0].id, 1);
}

#[test]
fn test_predicate_not_and() {
    let is_idle = StateInRange::new(AspectTest::ValueIs(ACTION_ASPECT_ID, StateValue::Sym(IDLE)));
    let hungry = StateInRange::new(AspectTest::IntAtMost(HUNGER_ASPECT_ID, 5));

    let mut s = State::new();
    s.insert(ACTION_ASPECT_ID, StateValue::Sym(IDLE));
    s.insert(HUNGER_ASPECT_ID, StateValue::Int(3));

    assert!(is_idle.clone().and(hungry.clone()).contains(&s));
    assert!(!is_idle.clone().and(hungry.clone().not()).contains(&s));
    assert!(!is_idle.not().contains(&s));

    // A missing aspect never satisfies a value test.
    let empty = State::new();
    let is_idle_again =
        StateInRange::new(AspectTest::ValueIs(ACTION_ASPECT_ID, StateValue::Sym(IDLE)));
    assert!(!is_idle_again.contains(&empty));
}

#[test]
fn test_payload_is_accepted_and_ignored() {
    let (blueprint, initial_state) = create_player_blueprint();
    let mut runtime = RuntimeStateMachine::new(blueprint, initial_state);

    runtime.event_happen(100, Some(StateValue::Int(12345)));
    runtime.transform();
    assert_eq!(get_action(&runtime), Some(StateValue::Sym(WALK)));
}

#[test]
fn test_resolve_discards_stale_pending() {
    let (blueprint, initial_state) = create_player_blueprint();
    let mut runtime = RuntimeStateMachine::new(blueprint, initial_state);

    // Resolve PressW but do not apply it; then resolve an event nothing
    // listens to. The stale pending transition must be discarded.
    runtime.event_happen(100, None);
    runtime.event_happen(999, None);
    let log = runtime.transform();

    assert!(log.is_empty());
    assert_eq!(get_action(&runtime), Some(StateValue::Sym(IDLE)));
}

#[test]
fn test_states_equal_ignores_insertion_order() {
    let mut a = State::new();
    a.insert(1, StateValue::Sym(IDLE));
    a.insert(2, StateValue::Int(10));

    let mut b = State::new();
    b.insert(2, StateValue::Int(10));
    b.insert(1, StateValue::Sym(WALK));
    b.insert(1, StateValue::Sym(IDLE)); // the last write wins

    assert!(states_equal(&a, &b));

    let mut c = State::new();
    c.insert(1, StateValue::Sym(IDLE));
    assert!(!states_equal(&a, &c));
    c.insert(2, StateValue::Int(11));
    assert!(!states_equal(&a, &c));
}

#[test]
fn test_two_aspect_scenario_sequence() {
    let (blueprint, initial_state) = create_player_blueprint();
    let mut runtime = RuntimeStateMachine::new(blueprint, initial_state);

    // PressW from Idle: the machine walks.
    runtime.event_happen(100, None);
    runtime.transform();
    assert_eq!(get_action(&runtime), Some(StateValue::Sym(WALK)));

    // PressW again: the guard is now false, the machine keeps walking.
    runtime.event_happen(100, None);
    runtime.transform();
    assert_eq!(get_action(&runtime), Some(StateValue::Sym(WALK)));

    // PressS: back to Idle.
    runtime.event_happen(101, None);
    runtime.transform();
    assert_eq!(get_action(&runtime), Some(StateValue::Sym(IDLE)));
}
