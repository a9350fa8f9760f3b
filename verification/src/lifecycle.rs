//! What a session's own event log says about waiting for the user.

use vstd::prelude::*;

verus! {

/// What a session waits for.
#[derive(Clone, Copy, Debug, PartialEq, Eq, Structural)]
pub enum InputKind {
    Question,
    PlanApproval,
}

/// One change of what a session waits for.
#[derive(Clone, Debug, PartialEq, Eq)]
pub enum LifecycleEvent {
    InputRequested { tool_call_id: String, kind: InputKind },
    InputResolved { tool_call_id: String, kind: InputKind },
    Reset,
}

} // verus!
