//! The collision classifier: contact events as the engine reports them, and
//! the category that the registry gives each of them.

use vstd::prelude::*;
use ncollide2d::pipeline::narrow_phase::EventPool;
use nphysics2d::object::DefaultColliderHandle;
use crate::engine::{pool_contacts, reported_contacts};
use crate::ids::{BodyId, EntityRole};
use crate::registry::{is_ball, EntityRegistry};

verus! {

/// Whether two bodies began or ceased to touch.
#[derive(Clone, Copy, Debug, PartialEq, Eq, Structural, Hash)]
pub enum ContactKind {
    Started,
    Stopped,
}

/// What kind of pair a contact is between.
#[derive(Clone, Copy, Debug, PartialEq, Eq, Structural, Hash)]
pub enum Category {
    /// Both bodies are balls.
    BallVsBall,
    /// One body is a ball, the other is ground.
    BallVsGround,
    /// Any other pair, a body without a role included.
    Other,
}

/// A contact notification of the engine, before classification. The order of
/// `a` and `b` is the engine's.
#[derive(Clone, Copy, Debug, PartialEq, Eq, Structural, Hash)]
pub struct RawContact {
    pub kind: ContactKind,
    pub a: BodyId,
    pub b: BodyId,
}

impl RawContact {
    /// The notification of the given kind between the bodies whose
    /// identifiers have the given slots and generations.
    pub fn of_parts(kind: ContactKind, a: (usize, u64), b: (usize, u64)) -> (raw: RawContact)
        ensures
            raw == (RawContact {
                kind,
                a: BodyId { slot: a.0, generation: a.1 },
                b: BodyId { slot: b.0, generation: b.1 },
            }),
    {
        RawContact { kind, a: BodyId::new(a.0, a.1), b: BodyId::new(b.0, b.1) }
    }
}

/// A contact notification together with its category.
#[derive(Clone, Copy, Debug, PartialEq, Eq, Structural, Hash)]
pub struct ClassifiedContact {
    pub kind: ContactKind,
    pub a: BodyId,
    pub b: BodyId,
    pub category: Category,
}

/// The role that `roles` gives `id`, if any.
pub open spec fn role_in(roles: Map<BodyId, EntityRole>, id: BodyId) -> Option<EntityRole> {
    if roles.contains_key(id) {
        Some(roles[id])
    } else {
        None
    }
}

/// The category of a pair of bodies with the given roles.
pub open spec fn category_of(a: Option<EntityRole>, b: Option<EntityRole>) -> Category {
    match (a, b) {
        (Some(EntityRole::Ball), Some(EntityRole::Ball)) => Category::BallVsBall,
        (Some(EntityRole::Ball), Some(EntityRole::Ground)) => Category::BallVsGround,
        (Some(EntityRole::Ground), Some(EntityRole::Ball)) => Category::BallVsGround,
        _ => Category::Other,
    }
}

/// The event that `raw` becomes under `roles`.
pub open spec fn classified(roles: Map<BodyId, EntityRole>, raw: RawContact) -> ClassifiedContact {
    ClassifiedContact {
        kind: raw.kind,
        a: raw.a,
        b: raw.b,
        category: category_of(role_in(roles, raw.a), role_in(roles, raw.b)),
    }
}

/// The events that `raws` become under `roles`: one for each, in the same
/// order.
pub open spec fn classified_all(roles: Map<BodyId, EntityRole>, raws: Seq<RawContact>) -> Seq<
    ClassifiedContact,
> {
    Seq::new(raws.len(), |i: int| classified(roles, raws[i]))
}

/// The first body, in the order of the notifications and with `a` before `b`,
/// to which `roles` gives no role.
pub open spec fn first_unregistered(roles: Map<BodyId, EntityRole>, raws: Seq<RawContact>) -> Option<
    BodyId,
>
    decreases raws.len(),
{
    if raws.len() == 0 {
        None
    } else if !roles.contains_key(raws[0].a) {
        Some(raws[0].a)
    } else if !roles.contains_key(raws[0].b) {
        Some(raws[0].b)
    } else {
        first_unregistered(roles, raws.drop_first())
    }
}

/// The category of a pair of bodies with the given roles.
pub fn categorize(a: Option<EntityRole>, b: Option<EntityRole>) -> (category: Category)
    ensures
        category == category_of(a, b),
{
    match (a, b) {
        (Some(EntityRole::Ball), Some(EntityRole::Ball)) => Category::BallVsBall,
        (Some(EntityRole::Ball), Some(EntityRole::Ground)) => Category::BallVsGround,
        (Some(EntityRole::Ground), Some(EntityRole::Ball)) => Category::BallVsGround,
        _ => Category::Other,
    }
}

/// Classifies one notification: kind and bodies are kept, the category comes
/// from the roles of the two bodies.
pub fn classify_contact(registry: &EntityRegistry, raw: RawContact) -> (event: ClassifiedContact)
    ensures
        event == classified(registry@, raw),
{
    let category = categorize(registry.role_of(raw.a), registry.role_of(raw.b));
    ClassifiedContact { kind: raw.kind, a: raw.a, b: raw.b, category }
}

/// Classifies the notifications of one tick: one event for each, in the
/// engine's order, none merged and none left out.
pub fn classify(registry: &EntityRegistry, raws: &Vec<RawContact>) -> (events: Vec<ClassifiedContact>)
    ensures
        events@ == classified_all(registry@, raws@),
{
    let mut events: Vec<ClassifiedContact> = Vec::new();
    let mut i: usize = 0;
    while i < raws.len()
        invariant
            i <= raws.len(),
            events@ == classified_all(registry@, raws@.take(i as int)),
        decreases raws.len() - i,
    {
        events.push(classify_contact(registry, raws[i]));
        i = i + 1;
        assert(events@ =~= classified_all(registry@, raws@.take(i as int)));
    }
    assert(raws@.take(i as int) =~= raws@);
    events
}

/// Classifies what the engine's pool of contact events holds after a step.
pub fn classify_reported(
    registry: &EntityRegistry,
    pool: &EventPool<ncollide2d::pipeline::narrow_phase::ContactEvent<DefaultColliderHandle>>,
) -> (events: Vec<ClassifiedContact>)
    ensures
        events@ == classified_all(registry@, pool_contacts(*pool)),
{
    let raws = reported_contacts(pool);
    classify(registry, &raws)
}

/// Looks for a body that the notifications mention and the registry does not
/// know.
pub fn find_unregistered(registry: &EntityRegistry, raws: &Vec<RawContact>) -> (found: Option<BodyId>)
    ensures
        found == first_unregistered(registry@, raws@),
{
    let mut i: usize = 0;
    assert(raws@.skip(0) =~= raws@);
    while i < raws.len()
        invariant
            i <= raws.len(),
            first_unregistered(registry@, raws@) == first_unregistered(
                registry@,
                raws@.skip(i as int),
            ),
        decreases raws.len() - i,
    {
        let raw = raws[i];
        assert(raws@.skip(i as int)[0] == raw);
        assert(raws@.skip(i as int).drop_first() =~= raws@.skip(i as int + 1));
        if registry.role_of(raw.a).is_none() {
            return Some(raw.a);
        }
        if registry.role_of(raw.b).is_none() {
            return Some(raw.b);
        }
        i = i + 1;
    }
    None
}

/// The category policy: a pair is `BallVsBall` exactly when both bodies are
/// balls, `BallVsGround` exactly when one is a ball and the other is ground,
/// and `Other` in every remaining case.
pub proof fn lemma_category_policy(roles: Map<BodyId, EntityRole>, raw: RawContact)
    ensures
        classified(roles, raw).category == Category::BallVsBall <==> is_ball(roles, raw.a)
            && is_ball(roles, raw.b),
        classified(roles, raw).category == Category::BallVsGround <==> (is_ball(roles, raw.a)
            && role_in(roles, raw.b) == Some(EntityRole::Ground)) || (role_in(roles, raw.a)
            == Some(EntityRole::Ground) && is_ball(roles, raw.b)),
        classified(roles, raw).category == Category::Other <==> !(is_ball(roles, raw.a) && is_ball(
            roles,
            raw.b,
        )) && !((is_ball(roles, raw.a) && role_in(roles, raw.b) == Some(EntityRole::Ground)) || (
        role_in(roles, raw.a) == Some(EntityRole::Ground) && is_ball(roles, raw.b))),
{
}

/// The category depends on the roles of the two bodies and on nothing else:
/// two notifications whose bodies have the same roles get the same category,
/// whatever their kinds.
pub proof fn lemma_category_depends_on_roles_only(
    roles: Map<BodyId, EntityRole>,
    first: RawContact,
    second: RawContact,
)
    requires
        role_in(roles, first.a) == role_in(roles, second.a),
        role_in(roles, first.b) == role_in(roles, second.b),
    ensures
        classified(roles, first).category == classified(roles, second).category,
{
}

/// Classification keeps kind, bodies and order, and yields one event for each
/// notification.
pub proof fn lemma_classification_keeps_events(roles: Map<BodyId, EntityRole>, raws: Seq<RawContact>)
    ensures
        classified_all(roles, raws).len() == raws.len(),
        forall|i: int|
            0 <= i < raws.len() ==> {
                &&& (#[trigger] classified_all(roles, raws)[i]).kind == raws[i].kind
                &&& classified_all(roles, raws)[i].a == raws[i].a
                &&& classified_all(roles, raws)[i].b == raws[i].b
            },
{
}

/// Classifying the same notifications under the same roles a second time
/// gives the same events.
pub proof fn lemma_classification_is_repeatable(
    roles: Map<BodyId, EntityRole>,
    raws: Seq<RawContact>,
    first: Seq<ClassifiedContact>,
    second: Seq<ClassifiedContact>,
)
    requires
        first == classified_all(roles, raws),
        second == classified_all(roles, raws),
    ensures
        first == second,
{
}

/// The registry enters a classification only through the roles of the bodies
/// that the notifications mention: two registries that agree on those give
/// the same events.
pub proof fn lemma_classification_reads_mentioned_roles(
    first: Map<BodyId, EntityRole>,
    second: Map<BodyId, EntityRole>,
    raws: Seq<RawContact>,
)
    requires
        forall|i: int|
            0 <= i < raws.len() ==> role_in(first, (#[trigger] raws[i]).a) == role_in(
                second,
                raws[i].a,
            ) && role_in(first, raws[i].b) == role_in(second, raws[i].b),
    ensures
        classified_all(first, raws) == classified_all(second, raws),
{
    assert(classified_all(first, raws) =~= classified_all(second, raws));
}

/// Whether `roles` gives a role to every body that `raws` mention.
pub open spec fn all_registered(roles: Map<BodyId, EntityRole>, raws: Seq<RawContact>) -> bool {
    forall|i: int|
        0 <= i < raws.len() ==> roles.contains_key((#[trigger] raws[i]).a) && roles.contains_key(
            raws[i].b,
        )
}

/// No body is reported as unregistered exactly when every body that the
/// notifications mention has a role; a reported body has none.
pub proof fn lemma_first_unregistered(roles: Map<BodyId, EntityRole>, raws: Seq<RawContact>)
    ensures
        first_unregistered(roles, raws) is None <==> all_registered(roles, raws),
        first_unregistered(roles, raws) matches Some(id) ==> !roles.contains_key(id),
    decreases raws.len(),
{
    if raws.len() > 0 {
        let rest = raws.drop_first();
        lemma_first_unregistered(roles, rest);
        if roles.contains_key(raws[0].a) && roles.contains_key(raws[0].b) {
            if all_registered(roles, rest) {
                assert forall|i: int| 0 <= i < raws.len() implies roles.contains_key(
                    (#[trigger] raws[i]).a,
                ) && roles.contains_key(raws[i].b) by {
                    if i > 0 {
                        assert(raws[i] == rest[i - 1]);
                    }
                }
            }
            if all_registered(roles, raws) {
                assert forall|i: int| 0 <= i < rest.len() implies roles.contains_key(
                    (#[trigger] rest[i]).a,
                ) && roles.contains_key(rest[i].b) by {
                    assert(rest[i] == raws[i + 1]);
                }
            }
        } else {
            if all_registered(roles, raws) {
                assert(roles.contains_key(raws[0].a) && roles.contains_key(raws[0].b));
            }
        }
    }
}

} // verus!
