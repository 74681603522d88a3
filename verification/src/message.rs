//! What crosses the boundary to the consumer: frames, and one terminal
//! message that tells a finished run from a failed one.

use vstd::prelude::*;
use crate::frame::Frame;
use crate::ids::BodyId;
use crate::scene::SetupError;

verus! {

/// An error that ends the run.
#[derive(Clone, Debug, PartialEq, Eq)]
pub enum Fault {
    /// The scene could not be set up; the run never started.
    Setup(SetupError),
    /// The engine mentioned a body that has no registered role, or its
    /// snapshot does not cover the tracked bodies one for one: engine and
    /// registry have come apart. The body at fault is attached.
    RegistryInvariantViolation(BodyId),
    /// The engine failed while stepping; the engine's words are attached.
    EngineStepFault(String),
}

/// How a run ended.
#[derive(Clone, Debug, PartialEq, Eq)]
pub enum Terminal {
    /// The tick budget was used up, or the run was cancelled.
    Finished,
    /// The run was stopped by a fatal error.
    Failed(Fault),
}

/// One message to the consumer.
#[derive(Clone, Debug, PartialEq)]
pub enum Message<S> {
    /// The snapshot of one tick.
    Frame(Frame<S>),
    /// The end of the run; nothing follows it.
    Terminal(Terminal),
}

/// The terminal message for a scene that could not be set up.
pub fn setup_failed<S>(error: SetupError) -> (message: Message<S>)
    ensures
        message == Message::<S>::Terminal(Terminal::Failed(Fault::Setup(error))),
{
    Message::Terminal(Terminal::Failed(Fault::Setup(error)))
}

} // verus!
