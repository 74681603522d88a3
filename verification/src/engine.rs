//! The boundary to the physics engine: the engine's handle and event-pool
//! types, and the calls that turn them into plain values.

use vstd::prelude::*;
use ncollide2d::pipeline::narrow_phase::EventPool;
use nphysics2d::object::DefaultColliderHandle;
use crate::contact::{ContactKind, RawContact};
use crate::ids::BodyId;

verus! {

/// `generational_arena::Index`, which nphysics2d hands out under the name
/// `DefaultColliderHandle` for every collider it creates. Nothing is said of
/// what a handle holds.
#[verifier::external_type_specification]
#[verifier::external_body]
pub struct ExColliderHandle(DefaultColliderHandle);

/// `ncollide2d::pipeline::narrow_phase::ContactEvent`, one notification that
/// two colliders began or ceased to touch. Nothing is said of what it holds.
#[verifier::external_type_specification]
#[verifier::external_body]
#[verifier::reject_recursive_types(Handle)]
pub struct ExContactEvent<Handle>(ncollide2d::pipeline::narrow_phase::ContactEvent<Handle>);

/// `ncollide2d::pipeline::narrow_phase::EventPool`, the engine's list of the
/// notifications of one step. Nothing is said of what it holds.
#[verifier::external_type_specification]
#[verifier::external_body]
#[verifier::reject_recursive_types(E)]
pub struct ExEventPool<E>(EventPool<E>);

/// What `generational_arena::Index::into_raw_parts` returns for a handle:
/// the slot of the arena and the generation of that slot.
pub uninterp spec fn handle_parts(handle: DefaultColliderHandle) -> (usize, u64);

/// What `EventPool::iter` yields for a pool of contact events: the
/// notifications that the pool holds, oldest first, each with its kind and
/// with the raw parts of its two handles.
pub uninterp spec fn pool_contacts(
    pool: EventPool<ncollide2d::pipeline::narrow_phase::ContactEvent<DefaultColliderHandle>>,
) -> Seq<RawContact>;

/// Calls `generational_arena::Index::into_raw_parts`, which returns the two
/// fields of the handle unchanged: the slot and its generation. The contract
/// claims that the identifier is made of exactly these two.
#[verifier::external_body]
pub(crate) fn collider_id(handle: DefaultColliderHandle) -> (id: BodyId)
    ensures
        (id.slot, id.generation) == handle_parts(handle),
{
    let (slot, generation) = handle.into_raw_parts();
    BodyId { slot, generation }
}

/// Walks `EventPool::iter`, which yields the events in the order in which
/// they were pushed, and copies each into a `RawContact`: the variant
/// becomes the kind, and each handle's `into_raw_parts` an identifier. The
/// contract claims that the result is what the pool holds, in that order.
#[verifier::external_body]
pub(crate) fn reported_contacts(
    pool: &EventPool<ncollide2d::pipeline::narrow_phase::ContactEvent<DefaultColliderHandle>>,
) -> (out: Vec<RawContact>)
    ensures
        out@ == pool_contacts(*pool),
{
    pool.iter().map(|event| match *event {
        ncollide2d::pipeline::narrow_phase::ContactEvent::Started(a, b) =>
            RawContact::of_parts(ContactKind::Started, a.into_raw_parts(), b.into_raw_parts()),
        ncollide2d::pipeline::narrow_phase::ContactEvent::Stopped(a, b) =>
            RawContact::of_parts(ContactKind::Stopped, a.into_raw_parts(), b.into_raw_parts()),
    }).collect()
}

} // verus!
