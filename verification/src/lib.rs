//! Orchestration of a fixed-timestep rigid-body simulation around a physics
//! engine: a worker steps the engine tick by tick and streams, for every
//! tick, the state of the tracked bodies and the classified contacts to a
//! consumer.
//!
//! - `ids`, `registry`: the bodies of a scene and the roles they play.
//! - `scene`: where the bodies of a scene stand, and their registration.
//! - `contact`: the classification of the engine's contact events.
//! - `roster`, `frame`: the snapshot of a tick, ordered by identifier.
//! - `stepper`, `run`: the state machine of the stepping loop, and what
//!   holds of every run of it.
//! - `message`, `outbox`, `publisher`: what the consumer receives, and the
//!   bounded queue through which it receives it.
//! - `pacing`: the tick rate and the rest between ticks.
//! - `engine`: the calls into the physics engine that the above rest on.

pub mod contact;
pub mod engine;
pub mod frame;
pub mod ids;
pub mod message;
pub mod outbox;
pub mod pacing;
pub mod publisher;
pub mod registry;
pub mod roster;
pub mod run;
pub mod scene;
pub mod stepper;
