//! The lifecycle of a supervised unit, and the supervisor's restart rule: a
//! unit whose processing loop ends abnormally is restarted from freshly
//! constructed state (accumulated in-memory state is lost), while a graceful
//! stop is final.

use vstd::prelude::*;

verus! {

/// The lifecycle of a unit: created, running one-time setup, processing its
/// mailbox, or finished — gracefully or not.
#[derive(Clone, Copy, PartialEq, Eq, Structural, Debug)]
pub enum UnitState {
    Created,
    Starting,
    Running,
    Stopped,
    Crashed,
}

/// The legal lifecycle steps: Created to Starting to Running, and from
/// Running to either final state.
pub open spec fn lifecycle_step_ok(from: UnitState, to: UnitState) -> bool {
    match (from, to) {
        (UnitState::Created, UnitState::Starting) => true,
        (UnitState::Starting, UnitState::Running) => true,
        (UnitState::Running, UnitState::Stopped) => true,
        (UnitState::Running, UnitState::Crashed) => true,
        _ => false,
    }
}

/// Whether a unit that ended in `state` is restarted by its supervisor:
/// only a crash is, from fresh state; an explicit stop never is.
pub fn supervisor_restarts(state: UnitState) -> (r: bool)
    ensures
        r == (state is Crashed),
{
    match state {
        UnitState::Crashed => true,
        _ => false,
    }
}

} // verus!
