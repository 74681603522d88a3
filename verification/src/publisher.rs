//! The snapshot publisher: how a message of the stepper reaches the outbox,
//! and what is noted when the consumer will not get it.

use vstd::prelude::*;
use crate::message::Message;
use crate::outbox::{Offer, Outbox, OutboxModel};
use crate::stepper::Stepper;

verus! {

/// Whether a message ends the run.
pub open spec fn is_terminal<S>(message: Message<S>) -> bool {
    message is Terminal
}

/// What `publish` does: `outbox` and `lost` are the state of the outbox and
/// the stepper's count of undelivered messages before the call; the result
/// holds both after the call and the message that was handed back, if any.
///
/// With the consumer gone nothing is queued and the message counts as
/// undelivered. Else a frame is offered under the policy of the outbox, and
/// counts as undelivered where the policy drops it; a terminal message is
/// never dropped. A message that the outbox refuses is handed back and is
/// not counted: the worker offers it again when there is room.
pub open spec fn published<S>(
    outbox: OutboxModel<Message<S>>,
    lost: nat,
    message: Message<S>,
    consumer_gone: bool,
) -> (OutboxModel<Message<S>>, nat, Option<Message<S>>) {
    let counted = if lost == u64::MAX {
        lost
    } else {
        lost + 1
    };
    if consumer_gone {
        (outbox, counted as nat, None)
    } else {
        let offer = if is_terminal(message) {
            outbox.offered_for_good(message)
        } else {
            outbox.offered(message)
        };
        match offer.1 {
            Offer::Accepted => (offer.0, lost, None),
            Offer::Evicted(_) => (offer.0, lost, None),
            Offer::Dropped(_) => (offer.0, counted as nat, None),
            Offer::Refused(back) => (offer.0, lost, Some(back)),
        }
    }
}

/// Hands a message of the stepper to the outbox and notes in the stepper
/// whether the consumer will get it. Where the result is a message, the
/// outbox had no room and drops nothing: the worker waits for the consumer
/// and publishes the message again. The run itself is never affected.
pub fn publish<S>(
    stepper: &mut Stepper,
    outbox: &mut Outbox<Message<S>>,
    message: Message<S>,
    consumer_gone: bool,
) -> (back: Option<Message<S>>)
    requires
        old(stepper).wf(),
        old(outbox)@.wf(),
    ensures
        final(stepper).wf(),
        final(outbox)@.wf(),
        final(stepper).model() == old(stepper).model(),
        (final(outbox)@, final(stepper).lost(), back) == published(
            old(outbox)@,
            old(stepper).lost(),
            message,
            consumer_gone,
        ),
{
    if consumer_gone {
        stepper.record_delivery(false);
        return None;
    }
    let for_good = match &message {
        Message::Terminal(_) => true,
        Message::Frame(_) => false,
    };
    let outcome = if for_good {
        outbox.offer_for_good(message)
    } else {
        outbox.offer(message)
    };
    match outcome {
        Offer::Accepted => {
            stepper.record_delivery(true);
            None
        },
        Offer::Evicted(_) => {
            stepper.record_delivery(true);
            None
        },
        Offer::Dropped(_) => {
            stepper.record_delivery(false);
            None
        },
        Offer::Refused(back) => Some(back),
    }
}

} // verus!
