//! Runs of a stepper: what holds of every series of calls on one stepper,
//! whatever the worker and the engine do in between.

use vstd::prelude::*;
use crate::contact::RawContact;
use crate::frame::{BodyState, Frame};
use crate::ids::BodyId;
use crate::message::{Message, Terminal};
use crate::registry::is_ball;
use crate::roster::ids_of;
use crate::stepper::{ended, tick_completed, Phase, StepperModel, TickStart};

verus! {

/// What one call on a stepper gave the consumer.
pub enum Emitted {
    /// No message.
    Nothing,
    /// The frame with this tick index.
    FrameAt(nat),
    /// The terminal message.
    Ended,
}

/// What `complete_tick` gave the consumer.
pub open spec fn emission<S>(msg: Option<Message<S>>) -> Emitted {
    match msg {
        None => Emitted::Nothing,
        Some(Message::Frame(frame)) => Emitted::FrameAt(frame.tick_index as nat),
        Some(Message::Terminal(_)) => Emitted::Ended,
    }
}

/// What `begin_tick` gave the consumer.
pub open spec fn emission_at_start(next: TickStart) -> Emitted {
    match next {
        TickStart::Conclude(_) => Emitted::Ended,
        _ => Emitted::Nothing,
    }
}

/// What `fail_tick` gave the consumer.
pub open spec fn emission_at_failure(end: Option<Terminal>) -> Emitted {
    match end {
        Some(_) => Emitted::Ended,
        None => Emitted::Nothing,
    }
}

/// What every call on a stepper keeps to, whichever it is: registry, roster
/// and budget stay; a frame answers an awaited step, carries the number of
/// ticks completed before it and completes one more; the terminal message
/// ends a running stepper; and a stepper that has ended stays as it is and
/// gives nothing.
pub open spec fn follows(pre: StepperModel, post: StepperModel, given: Emitted) -> bool {
    &&& post.budget == pre.budget
    &&& post.roles == pre.roles
    &&& post.roster == pre.roster
    &&& match given {
        Emitted::FrameAt(tick) => {
            &&& pre.stepping
            &&& pre.phase == Phase::Running
            &&& post.phase == Phase::Running
            &&& tick == pre.ticks
            &&& post.ticks == pre.ticks + 1
        },
        Emitted::Ended => {
            &&& pre.phase == Phase::Running
            &&& ended(post.phase)
            &&& post.ticks == pre.ticks
        },
        Emitted::Nothing => {
            &&& post.ticks == pre.ticks
            &&& ended(pre.phase) ==> post.phase == pre.phase
        },
    }
}

/// `start` keeps to `follows`.
pub proof fn lemma_start_follows(pre: StepperModel)
    requires
        pre.wf(),
    ensures
        pre.started().wf(),
        follows(pre, pre.started(), Emitted::Nothing),
{
}

/// `begin_tick` keeps to `follows`.
pub proof fn lemma_begin_follows(pre: StepperModel, cancel: bool)
    requires
        pre.wf(),
    ensures
        pre.begun(cancel).0.wf(),
        follows(pre, pre.begun(cancel).0, emission_at_start(pre.begun(cancel).1)),
{
}

/// `complete_tick` keeps to `follows`.
pub proof fn lemma_complete_follows<S>(
    pre: StepperModel,
    post: StepperModel,
    contacts: Seq<RawContact>,
    bodies: Seq<BodyState<S>>,
    msg: Option<Message<S>>,
)
    requires
        pre.wf(),
        tick_completed(pre, post, contacts, bodies, msg),
    ensures
        post.wf(),
        follows(pre, post, emission(msg)),
{
}

/// `fail_tick` keeps to `follows`.
pub proof fn lemma_fail_follows(pre: StepperModel, end: Option<Terminal>)
    requires
        pre.wf(),
        pre.stepping <==> end is Some,
    ensures
        follows(pre, if pre.stepping { pre.halted() } else { pre }, emission_at_failure(end)),
{
}

/// Whether `states` are the states that a stepper went through in a series
/// of calls, and `given` what each call gave the consumer.
pub open spec fn is_run(states: Seq<StepperModel>, given: Seq<Emitted>) -> bool {
    &&& states.len() == given.len() + 1
    &&& forall|i: int| 0 <= i < states.len() ==> (#[trigger] states[i]).wf()
    &&& forall|i: int| 0 <= i < given.len() ==> follows(states[i], states[i + 1], #[trigger] given[i])
}

/// The tick indices of the frames among `given`, in their order.
pub open spec fn frame_ticks(given: Seq<Emitted>) -> Seq<nat>
    decreases given.len(),
{
    if given.len() == 0 {
        Seq::empty()
    } else if let Emitted::FrameAt(tick) = given.last() {
        frame_ticks(given.drop_last()).push(tick)
    } else {
        frame_ticks(given.drop_last())
    }
}

/// The frames of a run carry consecutive tick indices: the first has the
/// number of ticks completed before the run, each next one has one more,
/// and the stepper has counted them all.
pub proof fn lemma_ticks_in_order(states: Seq<StepperModel>, given: Seq<Emitted>)
    requires
        is_run(states, given),
    ensures
        forall|k: int|
            0 <= k < frame_ticks(given).len() ==> #[trigger] frame_ticks(given)[k] == states[0].ticks
                + k,
        states.last().ticks == states[0].ticks + frame_ticks(given).len(),
    decreases given.len(),
{
    if given.len() > 0 {
        let front_states = states.drop_last();
        let front = given.drop_last();
        assert(is_run(front_states, front)) by {
            assert forall|i: int| 0 <= i < front.len() implies follows(
                front_states[i],
                front_states[i + 1],
                #[trigger] front[i],
            ) by {
                assert(follows(states[i], states[i + 1], given[i]));
            }
        }
        lemma_ticks_in_order(front_states, front);
        let last = given.len() - 1;
        assert(follows(states[last], states[last + 1], given[last]));
        assert(front_states.last() == states[last]);
        assert(front_states[0] == states[0]);
    }
}

/// No frame goes beyond the budget: the tick index of every frame of a run
/// is less than the number of ticks that the run was given.
pub proof fn lemma_frames_within_budget(states: Seq<StepperModel>, given: Seq<Emitted>, at: int)
    requires
        is_run(states, given),
        0 <= at < given.len(),
        given[at] is FrameAt,
    ensures
        states[0].budget matches Some(budget) ==> given[at]->FrameAt_0 < budget,
        given[at]->FrameAt_0 < u64::MAX,
{
    lemma_setup_is_kept(states, given, at);
    assert(follows(states[at], states[at + 1], given[at]));
    assert(states[at].wf());
}

/// What a run was set up with stays: the roles of the bodies, the roster of
/// the balls and the budget are at every point those of the beginning.
pub proof fn lemma_setup_is_kept(states: Seq<StepperModel>, given: Seq<Emitted>, at: int)
    requires
        is_run(states, given),
        0 <= at < states.len(),
    ensures
        states[at].budget == states[0].budget,
        states[at].roles == states[0].roles,
        states[at].roster == states[0].roster,
    decreases at,
{
    if at > 0 {
        lemma_setup_is_kept(states, given, at - 1);
        assert(follows(states[at - 1], states[at], given[at - 1]));
    }
}

/// A stepper that has ended stays ended through every further call.
pub proof fn lemma_end_is_final(states: Seq<StepperModel>, given: Seq<Emitted>, from: int, to: int)
    requires
        is_run(states, given),
        0 <= from <= to < states.len(),
        ended(states[from].phase),
    ensures
        states[to].phase == states[from].phase,
        states[to].ticks == states[from].ticks,
    decreases to - from,
{
    if from < to {
        lemma_end_is_final(states, given, from, to - 1);
        assert(follows(states[to - 1], states[to], given[to - 1]));
    }
}

/// The terminal message is the last that a run gives: no frame and no second
/// terminal message follow it.
pub proof fn lemma_nothing_after_the_end(
    states: Seq<StepperModel>,
    given: Seq<Emitted>,
    at: int,
    later: int,
)
    requires
        is_run(states, given),
        0 <= at < later < given.len(),
        given[at] == Emitted::Ended,
    ensures
        given[later] == Emitted::Nothing,
{
    assert(follows(states[at], states[at + 1], given[at]));
    lemma_end_is_final(states, given, at + 1, later);
    assert(follows(states[later], states[later + 1], given[later]));
}

/// A frame that lists the roster lists the tracked balls and nothing else,
/// each once and in strictly ascending order.
pub proof fn lemma_frame_covers_the_balls<S>(model: StepperModel, frame: Frame<S>)
    requires
        model.wf(),
        ids_of(frame.bodies@) == model.roster,
    ensures
        forall|i: int, j: int|
            0 <= i < j < frame.bodies@.len() ==> frame.bodies@[i].id.key() < frame.bodies@[j].id.key(),
        forall|i: int| 0 <= i < frame.bodies@.len() ==> is_ball(model.roles, #[trigger] frame.bodies@[i].id),
        forall|id: BodyId|
            is_ball(model.roles, id) ==> exists|i: int|
                0 <= i < frame.bodies@.len() && #[trigger] frame.bodies@[i].id == id,
{
    let ids = ids_of(frame.bodies@);
    assert forall|i: int, j: int| 0 <= i < j < frame.bodies@.len() implies frame.bodies@[i].id.key()
        < frame.bodies@[j].id.key() by {
        assert(ids[i] == frame.bodies@[i].id && ids[j] == frame.bodies@[j].id);
    }
    assert forall|i: int| 0 <= i < frame.bodies@.len() implies is_ball(
        model.roles,
        #[trigger] frame.bodies@[i].id,
    ) by {
        assert(ids[i] == frame.bodies@[i].id);
        assert(model.roster.contains(ids[i]));
    }
    assert forall|id: BodyId| is_ball(model.roles, id) implies exists|i: int|
        0 <= i < frame.bodies@.len() && #[trigger] frame.bodies@[i].id == id by {
        assert(model.roster.contains(id));
        let i = choose|i: int| 0 <= i < model.roster.len() && model.roster[i] == id;
        assert(ids[i] == frame.bodies@[i].id);
    }
}

} // verus!
