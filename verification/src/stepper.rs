//! The simulation stepper: the state machine that decides, at every tick
//! boundary, whether the engine advances, and that turns what the engine
//! reports after a step into the message for the consumer.
//!
//! The worker that owns the engine runs the loop: it asks `begin_tick`,
//! advances the engine by one fixed timestep when told to, and hands the
//! engine's report to `complete_tick` or `fail_tick`.

use vstd::prelude::*;
use ncollide2d::pipeline::narrow_phase::EventPool;
use nphysics2d::object::DefaultColliderHandle;
use crate::contact::{classified_all, classify, find_unregistered, first_unregistered, RawContact};
use crate::engine::{pool_contacts, reported_contacts};
use crate::frame::{BodyState, Frame};
use crate::ids::{BodyId, EntityRole};
use crate::message::{Fault, Message, Terminal};
use crate::registry::{is_ball, EntityRegistry};
use crate::roster::{ascending, ascending_order, ids_of, least_miscounted, order_snapshot};

verus! {

/// Where a run stands.
#[derive(Clone, Copy, Debug, PartialEq, Eq, Structural)]
pub enum Phase {
    /// Engine and registry are populated, no tick has been advanced.
    Idle,
    /// Ticks are being advanced.
    Running,
    /// The run was cancelled or hit a fatal error.
    Stopped,
    /// The tick budget is used up.
    Finished,
}

/// What the worker has to do at a tick boundary.
#[derive(Clone, Debug, PartialEq, Eq)]
pub enum TickStart {
    /// Advance the engine by one fixed timestep, then report.
    Advance,
    /// The run ends here: send this terminal message and leave the loop.
    Conclude(Terminal),
    /// No tick can begin: the run has not started, has ended, or a step is
    /// still awaiting its report.
    Refused,
}

/// The state of a stepper, as contracts see it.
pub struct StepperModel {
    pub phase: Phase,
    /// Whether the engine was told to advance and has not reported yet.
    pub stepping: bool,
    /// The number of ticks completed, which is the index of the next frame.
    pub ticks: nat,
    /// The number of ticks after which the run finishes, if any.
    pub budget: Option<u64>,
    /// The role of every registered body.
    pub roles: Map<BodyId, EntityRole>,
    /// The tracked balls in ascending order.
    pub roster: Seq<BodyId>,
}

/// Whether a phase is one that a run never leaves.
pub open spec fn ended(phase: Phase) -> bool {
    phase == Phase::Stopped || phase == Phase::Finished
}

impl StepperModel {
    /// The roster lists the balls of the registry, each once, in ascending
    /// order; a step is awaited only while running and within the budget;
    /// nothing has been advanced before the start.
    pub open spec fn wf(self) -> bool {
        &&& ascending(self.roster)
        &&& forall|id: BodyId| #[trigger] self.roster.contains(id) <==> is_ball(self.roles, id)
        &&& self.stepping ==> self.phase == Phase::Running && !self.exhausted()
        &&& self.phase == Phase::Idle ==> self.ticks == 0
        &&& self.ticks <= u64::MAX
    }

    /// No further tick may be advanced: the budget is used up, or the tick
    /// counter has reached the largest index a frame can carry.
    pub open spec fn exhausted(self) -> bool {
        self.ticks >= u64::MAX || (self.budget matches Some(b) && self.ticks >= b)
    }

    /// The state after `start`.
    pub open spec fn started(self) -> StepperModel {
        if self.phase == Phase::Idle {
            StepperModel { phase: Phase::Running, ..self }
        } else {
            self
        }
    }

    /// The state after `begin_tick`, and what the worker is told.
    pub open spec fn begun(self, cancel: bool) -> (StepperModel, TickStart) {
        if self.phase != Phase::Running || self.stepping {
            (self, TickStart::Refused)
        } else if self.exhausted() {
            (StepperModel { phase: Phase::Finished, ..self }, TickStart::Conclude(Terminal::Finished))
        } else if cancel {
            (StepperModel { phase: Phase::Stopped, ..self }, TickStart::Conclude(Terminal::Finished))
        } else {
            (StepperModel { stepping: true, ..self }, TickStart::Advance)
        }
    }

    /// The state after a fatal error.
    pub open spec fn halted(self) -> StepperModel {
        StepperModel { phase: Phase::Stopped, stepping: false, ..self }
    }

    /// The state after a tick whose frame was built.
    pub open spec fn advanced(self) -> StepperModel {
        StepperModel { stepping: false, ticks: self.ticks + 1, ..self }
    }
}

/// What `complete_tick` does with the report of a step: `pre` and `post` are
/// the states around the call, `contacts` and `bodies` the report, `msg` the
/// result.
///
/// Without an awaited step nothing happens. A contact that mentions a body
/// without a role is fatal, and so is a snapshot that does not hold one
/// state for each tracked ball and no other. Else the frame carries the index
/// of the tick, the given states in the order of the roster and the given
/// contacts, classified, in their order.
pub open spec fn tick_completed<S>(
    pre: StepperModel,
    post: StepperModel,
    contacts: Seq<RawContact>,
    bodies: Seq<BodyState<S>>,
    msg: Option<Message<S>>,
) -> bool {
    if !pre.stepping {
        msg is None && post == pre
    } else if let Some(id) = first_unregistered(pre.roles, contacts) {
        &&& msg == Some(
            Message::<S>::Terminal(Terminal::Failed(Fault::RegistryInvariantViolation(id))),
        )
        &&& post == pre.halted()
    } else if ids_of(bodies).to_multiset() == pre.roster.to_multiset() {
        &&& msg matches Some(Message::Frame(frame))
        &&& frame.tick_index == pre.ticks
        &&& ids_of(frame.bodies@) == pre.roster
        &&& frame.bodies@.to_multiset() == bodies.to_multiset()
        &&& frame.events@ == classified_all(pre.roles, contacts)
        &&& post == pre.advanced()
    } else {
        &&& msg matches Some(Message::Terminal(Terminal::Failed(Fault::RegistryInvariantViolation(id))))
        &&& least_miscounted(pre.roster, ids_of(bodies), id)
        &&& post == pre.halted()
    }
}

/// Drives one run of the simulation.
#[derive(Debug)]
pub struct Stepper {
    phase: Phase,
    stepping: bool,
    ticks: u64,
    budget: Option<u64>,
    registry: EntityRegistry,
    roster: Vec<BodyId>,
    undelivered: u64,
}

impl Stepper {
    /// The state of the stepper.
    pub closed spec fn model(&self) -> StepperModel {
        StepperModel {
            phase: self.phase,
            stepping: self.stepping,
            ticks: self.ticks as nat,
            budget: self.budget,
            roles: self.registry@,
            roster: self.roster@,
        }
    }

    /// The number of messages that the consumer did not take.
    pub closed spec fn lost(&self) -> nat {
        self.undelivered as nat
    }

    /// The stepper's own invariant; it implies that of its state.
    pub closed spec fn wf(&self) -> bool {
        &&& self.registry.wf()
        &&& self.model().wf()
    }

    /// A well-formed stepper has a well-formed state.
    pub proof fn lemma_model_wf(&self)
        requires
            self.wf(),
        ensures
            self.model().wf(),
    {
    }

    /// A stepper for the bodies of `registry`, which from now on is fixed.
    /// With a `budget` the run finishes after that many ticks.
    pub fn new(registry: EntityRegistry, budget: Option<u64>) -> (stepper: Stepper)
        requires
            registry.wf(),
        ensures
            stepper.wf(),
            stepper.model().phase == Phase::Idle,
            !stepper.model().stepping,
            stepper.model().ticks == 0,
            stepper.model().budget == budget,
            stepper.model().roles == registry@,
            stepper.model().roster.to_multiset() == registry.balls().to_multiset(),
            stepper.lost() == 0,
    {
        let roster = ascending_order(registry.tracked_ids());
        proof {
            registry.lemma_balls_have_ball_role();
            registry.balls().to_multiset_ensures();
            roster@.to_multiset_ensures();
            assert forall|id: BodyId| #[trigger] roster@.contains(id) <==> is_ball(registry@, id) by {
                assert(roster@.to_multiset().count(id) == registry.balls().to_multiset().count(id));
                assert(registry.balls().contains(id) <==> is_ball(registry@, id));
            }
        }
        Stepper {
            phase: Phase::Idle,
            stepping: false,
            ticks: 0,
            budget,
            registry,
            roster,
            undelivered: 0,
        }
    }

    /// Where the run stands.
    pub fn phase(&self) -> (phase: Phase)
        ensures
            phase == self.model().phase,
    {
        self.phase
    }

    /// The number of ticks completed so far.
    pub fn ticks_done(&self) -> (ticks: u64)
        ensures
            ticks == self.model().ticks,
    {
        self.ticks
    }

    /// The number of ticks after which the run finishes, if any.
    pub fn budget(&self) -> (budget: Option<u64>)
        ensures
            budget == self.model().budget,
    {
        self.budget
    }

    /// The registry that the run classifies against.
    pub fn registry(&self) -> (registry: &EntityRegistry)
        ensures
            registry@ == self.model().roles,
    {
        &self.registry
    }

    /// The tracked balls in ascending order: the bodies that every frame
    /// covers, in the order in which it lists them.
    pub fn roster(&self) -> (roster: &Vec<BodyId>)
        ensures
            roster@ == self.model().roster,
    {
        &self.roster
    }

    /// The number of messages that the consumer did not take.
    pub fn undelivered(&self) -> (n: u64)
        ensures
            n == self.lost(),
    {
        self.undelivered
    }

    /// Leaves `Idle` for `Running`. In any other phase nothing changes and
    /// the result is `false`.
    pub fn start(&mut self) -> (started: bool)
        requires
            old(self).wf(),
        ensures
            final(self).wf(),
            started == (old(self).model().phase == Phase::Idle),
            final(self).model() == old(self).model().started(),
            final(self).lost() == old(self).lost(),
    {
        match self.phase {
            Phase::Idle => {
                self.phase = Phase::Running;
                true
            },
            _ => false,
        }
    }

    /// Decides at a tick boundary what happens next. A used-up budget
    /// finishes the run; otherwise a cancellation stops it; otherwise the
    /// engine is to advance. `cancel` says whether a cancellation was
    /// requested.
    pub fn begin_tick(&mut self, cancel: bool) -> (next: TickStart)
        requires
            old(self).wf(),
        ensures
            final(self).wf(),
            (final(self).model(), next) == old(self).model().begun(cancel),
            final(self).lost() == old(self).lost(),
    {
        if self.phase != Phase::Running || self.stepping {
            return TickStart::Refused;
        }
        let out_of_budget = match self.budget {
            Some(b) => self.ticks >= b,
            None => false,
        };
        if self.ticks == u64::MAX || out_of_budget {
            self.phase = Phase::Finished;
            return TickStart::Conclude(Terminal::Finished);
        }
        if cancel {
            self.phase = Phase::Stopped;
            return TickStart::Conclude(Terminal::Finished);
        }
        self.stepping = true;
        TickStart::Advance
    }

    /// Takes the report of the step that `begin_tick` asked for: the
    /// contacts of the tick and the state of every tracked ball after it.
    pub fn complete_tick<S>(&mut self, contacts: &Vec<RawContact>, bodies: Vec<BodyState<S>>) -> (msg:
        Option<Message<S>>)
        requires
            old(self).wf(),
        ensures
            final(self).wf(),
            tick_completed(old(self).model(), final(self).model(), contacts@, bodies@, msg),
            final(self).lost() == old(self).lost(),
    {
        if !self.stepping {
            return None;
        }
        match find_unregistered(&self.registry, contacts) {
            Some(id) => {
                self.phase = Phase::Stopped;
                self.stepping = false;
                return Some(
                    Message::Terminal(Terminal::Failed(Fault::RegistryInvariantViolation(id))),
                );
            },
            None => {},
        }
        match order_snapshot(&self.roster, bodies) {
            Err(id) => {
                self.phase = Phase::Stopped;
                self.stepping = false;
                Some(Message::Terminal(Terminal::Failed(Fault::RegistryInvariantViolation(id))))
            },
            Ok(ordered) => {
                let events = classify(&self.registry, contacts);
                let frame = Frame { tick_index: self.ticks, bodies: ordered, events };
                self.ticks = self.ticks + 1;
                self.stepping = false;
                Some(Message::Frame(frame))
            },
        }
    }

    /// Takes the report of a step straight from the engine's pool of contact
    /// events.
    pub fn complete_engine_tick<S>(
        &mut self,
        pool: &EventPool<ncollide2d::pipeline::narrow_phase::ContactEvent<DefaultColliderHandle>>,
        bodies: Vec<BodyState<S>>,
    ) -> (msg: Option<Message<S>>)
        requires
            old(self).wf(),
        ensures
            final(self).wf(),
            tick_completed(
                old(self).model(),
                final(self).model(),
                pool_contacts(*pool),
                bodies@,
                msg,
            ),
            final(self).lost() == old(self).lost(),
    {
        let contacts = reported_contacts(pool);
        self.complete_tick(&contacts, bodies)
    }

    /// Takes the news that the engine failed in the step that `begin_tick`
    /// asked for. The run stops, and the result is the terminal message for
    /// the consumer. Without an awaited step nothing happens.
    pub fn fail_tick(&mut self, reason: String) -> (end: Option<Terminal>)
        requires
            old(self).wf(),
        ensures
            final(self).wf(),
            final(self).lost() == old(self).lost(),
            old(self).model().stepping ==> end == Some(
                Terminal::Failed(Fault::EngineStepFault(reason)),
            ) && final(self).model() == old(self).model().halted(),
            !old(self).model().stepping ==> end is None && final(self).model() == old(
                self,
            ).model(),
    {
        if !self.stepping {
            return None;
        }
        self.phase = Phase::Stopped;
        self.stepping = false;
        Some(Terminal::Failed(Fault::EngineStepFault(reason)))
    }

    /// Notes whether the consumer took a message. A message that it did not
    /// take is counted and changes nothing else: the run goes on.
    pub fn record_delivery(&mut self, delivered: bool)
        requires
            old(self).wf(),
        ensures
            final(self).wf(),
            final(self).model() == old(self).model(),
            final(self).lost() == if delivered || old(self).lost() == u64::MAX {
                old(self).lost()
            } else {
                old(self).lost() + 1
            },
    {
        if !delivered && self.undelivered < u64::MAX {
            self.undelivered = self.undelivered + 1;
        }
    }
}

} // verus!
