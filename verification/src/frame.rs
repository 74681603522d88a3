//! The snapshot of one tick: the state of every tracked body and the
//! classified contacts, as one value that is handed to the consumer.

use vstd::prelude::*;
use crate::contact::ClassifiedContact;
use crate::ids::BodyId;
use crate::roster::Identified;

verus! {

/// Position and orientation of a body. `S` is the engine's scalar type.
#[derive(Clone, Copy, Debug, PartialEq)]
pub struct Pose<S> {
    pub x: S,
    pub y: S,
    pub angle: S,
}

/// A planar vector of the engine's scalars.
#[derive(Clone, Copy, Debug, PartialEq)]
pub struct Vector<S> {
    pub x: S,
    pub y: S,
}

/// The state of one body at the end of a tick, copied out of the engine.
#[derive(Clone, Copy, Debug, PartialEq)]
pub struct BodyState<S> {
    pub id: BodyId,
    pub position: Pose<S>,
    pub linear_velocity: Vector<S>,
    pub angular_velocity: S,
}

impl<S> BodyState<S> {
    /// The state of body `id`.
    pub fn new(id: BodyId, position: Pose<S>, linear_velocity: Vector<S>, angular_velocity: S) -> (state:
        BodyState<S>)
        ensures
            state.id == id,
            state.position == position,
            state.linear_velocity == linear_velocity,
            state.angular_velocity == angular_velocity,
    {
        BodyState { id, position, linear_velocity, angular_velocity }
    }
}

impl<S> Identified for BodyState<S> {
    open spec fn ident(&self) -> BodyId {
        self.id
    }

    fn id(&self) -> BodyId {
        self.id
    }
}

/// What the consumer receives for one tick: the states of the tracked
/// bodies in ascending order of their identifiers, and the contacts of the
/// tick in the engine's order.
#[derive(Clone, Debug, PartialEq)]
pub struct Frame<S> {
    pub tick_index: u64,
    pub bodies: Vec<BodyState<S>>,
    pub events: Vec<ClassifiedContact>,
}

} // verus!
