//! Control messages of the serving layer's supervisor loop, and the
//! decision it takes on each one.

use vstd::prelude::*;

verus! {

/// A signal the running server sends its supervisor.
#[derive(Clone, Copy, Debug, PartialEq, Eq)]
pub enum ControlMessage {
    Restart,
    Stop,
    Search,
}

/// What the supervisor does after a server instance hands control
/// back: launch the server again, rescan the library first and then
/// launch again, or shut the process down.
#[derive(Clone, Copy, Debug, PartialEq, Eq)]
pub enum SupervisorStep {
    Relaunch,
    RescanThenRelaunch,
    Shutdown,
}

/// The supervisor's decision table: restart relaunches, search rescans
/// and then relaunches, stop — or a closed channel — shuts down.
pub open spec fn control_step_model(msg: Option<ControlMessage>) -> SupervisorStep {
    match msg {
        Some(ControlMessage::Restart) => SupervisorStep::Relaunch,
        Some(ControlMessage::Search) => SupervisorStep::RescanThenRelaunch,
        Some(ControlMessage::Stop) => SupervisorStep::Shutdown,
        None => SupervisorStep::Shutdown,
    }
}

/// Decides one round of the supervisor loop.
pub fn control_step(msg: &Option<ControlMessage>) -> (step: SupervisorStep)
    ensures
        step == control_step_model(*msg),
{
    match msg {
        Some(ControlMessage::Restart) => SupervisorStep::Relaunch,
        Some(ControlMessage::Search) => SupervisorStep::RescanThenRelaunch,
        Some(ControlMessage::Stop) => SupervisorStep::Shutdown,
        None => SupervisorStep::Shutdown,
    }
}

} // verus!
