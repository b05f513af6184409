//! An event-driven finite-state-machine engine with multi-dimensional state.
//!
//! A machine's state is a mapping from aspect identifiers to tagged values.
//! Blueprints declare aspects, events, guarded prioritized transitions and
//! region observers, and compose by `merge`. A runtime instance resolves an
//! event to at most one pending transition and then commits it, reporting the
//! exit/transition/enter callbacks that fire, in order, as a log for the
//! embedding application to dispatch.

pub mod blueprint;
pub mod event;
pub mod runtime;
pub mod state;
pub mod state_aspect;
pub mod state_in_range;
pub mod state_observer;
pub mod tool;
pub mod transfer;
pub mod transition;
pub mod types;

pub use blueprint::StateMachineBlueprint;
pub use event::EventDef;
pub use runtime::{CallbackEvent, RuntimeStateMachine};
pub use state::{states_equal, IdMap, State};
pub use state_aspect::StateAspect;
pub use state_in_range::{AspectTest, StateInRange};
pub use state_observer::StateObserver;
pub use tool::{partition_range_by_transfer_target, split_blueprint_by_forbidden_region};
pub use transfer::{Transfer, TransferOp};
pub use transition::Transition;
pub use types::{
    CallbackId, EventId, ObserverId, StateAspectId, StateValue, TransitionId, ValueTag,
};
