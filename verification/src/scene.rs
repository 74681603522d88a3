//! The scene builder: where the static scenery and the balls of a scene
//! stand, which of the requested shapes are degenerate, and which role each
//! body that the engine created gets.
//!
//! Lengths and velocities are whole numbers of thousandths of the engine's
//! unit; the worker turns them into the engine's scalars.

use vstd::prelude::*;
use nphysics2d::object::DefaultColliderHandle;
use crate::engine::{collider_id, handle_parts};
use crate::ids::{BodyId, EntityRole};
use crate::registry::EntityRegistry;

verus! {

/// Why a scene could not be set up.
#[derive(Clone, Copy, Debug, PartialEq, Eq, Structural)]
pub enum SetupError {
    /// A requested shape has an extent that is not positive.
    DegenerateGeometry,
    /// Bodies were requested and the engine created none.
    NoBodiesCreated,
    /// The engine handed out one identifier twice.
    DuplicateBody(BodyId),
}

/// A point of the plane, or a velocity, in thousandths.
#[derive(Clone, Copy, Debug, PartialEq, Eq, Structural)]
pub struct Placement {
    pub x: i64,
    pub y: i64,
}

/// An axis-aligned box, given by its half extents in thousandths.
#[derive(Clone, Copy, Debug, PartialEq, Eq, Structural)]
pub struct BoxShape {
    pub half_width: i64,
    pub half_height: i64,
}

/// What a scene is requested to hold. Lengths and velocities in thousandths.
#[derive(Clone, Copy, Debug, PartialEq, Eq, Structural)]
pub struct SceneConfig {
    /// The margin that the engine keeps around every collider.
    pub margin: u32,
    /// Half the side of a ground block, margin included.
    pub ground_radius: u32,
    /// Half the side of a ball, margin included.
    pub ball_radius: u32,
    /// The number of balls.
    pub ball_count: u32,
    /// The distance between two neighbouring balls.
    pub ball_spacing: i32,
    /// The height at which the balls start.
    pub ball_height: i32,
    /// The velocity that the last ball starts with.
    pub seed_velocity: Placement,
    /// How much of its speed a body keeps when it bounces, for every
    /// collider of the scene.
    pub restitution: u32,
    /// The friction of every collider of the scene.
    pub friction: u32,
    /// The mass of a ball.
    pub ball_mass: u32,
    /// The angular inertia of a ball.
    pub ball_angular_inertia: u32,
}

/// Where everything stands, ready to be handed to the engine.
#[derive(Clone, Debug, PartialEq, Eq)]
pub struct ScenePlan {
    pub margin: i64,
    pub ground_shape: BoxShape,
    pub ground_positions: Vec<Placement>,
    pub ball_shape: BoxShape,
    pub ball_positions: Vec<Placement>,
    pub seed_velocity: Placement,
    pub restitution: i64,
    pub friction: i64,
    pub ball_mass: i64,
    pub ball_angular_inertia: i64,
}

/// The positions of the four ground blocks around the origin, for blocks of
/// half side `radius`: below, above, right and left.
pub open spec fn ground_layout(radius: int) -> Seq<Placement> {
    seq![
        Placement { x: 0, y: (-radius) as i64 },
        Placement { x: 0, y: (2 * radius) as i64 },
        Placement { x: (radius + radius / 2) as i64, y: (radius / 2) as i64 },
        Placement { x: (-(radius + radius / 2)) as i64, y: (radius / 2) as i64 },
    ]
}

/// The starting positions of `count` balls in a row: the second stands at
/// the origin's abscissa, neighbours are `spacing` apart.
pub open spec fn ball_layout(count: int, spacing: int, height: int) -> Seq<Placement> {
    Seq::new(count as nat, |i: int| Placement { x: ((i - 1) * spacing) as i64, y: height as i64 })
}

/// Whether a configuration asks for a shape without extent.
pub open spec fn degenerate(config: SceneConfig) -> bool {
    config.ground_radius - config.margin <= 0 || config.ball_radius - config.margin <= 0
}

/// The scene of the demonstration: two balls of unit mass and without
/// angular inertia four units apart over a ground of blocks of half side
/// fifty, the last ball thrown up and to the right; every collider bounces
/// fully and has no friction.
pub fn demo_config() -> (config: SceneConfig)
    ensures
        config == (SceneConfig {
            margin: 10,
            ground_radius: 50_000,
            ball_radius: 1_500,
            ball_count: 2,
            ball_spacing: 4_000,
            ball_height: 3_000,
            seed_velocity: Placement { x: 30_000, y: 30_000 },
            restitution: 1_000,
            friction: 0,
            ball_mass: 1_000,
            ball_angular_inertia: 0,
        }),
        !degenerate(config),
{
    SceneConfig {
        margin: 10,
        ground_radius: 50_000,
        ball_radius: 1_500,
        ball_count: 2,
        ball_spacing: 4_000,
        ball_height: 3_000,
        seed_velocity: Placement { x: 30_000, y: 30_000 },
        restitution: 1_000,
        friction: 0,
        ball_mass: 1_000,
        ball_angular_inertia: 0,
    }
}

/// The positions of the four ground blocks.
pub fn ground_positions(radius: u32) -> (positions: Vec<Placement>)
    ensures
        positions@ == ground_layout(radius as int),
{
    let r: i64 = radius as i64;
    let mut positions: Vec<Placement> = Vec::new();
    positions.push(Placement { x: 0, y: -r });
    positions.push(Placement { x: 0, y: 2 * r });
    positions.push(Placement { x: r + r / 2, y: r / 2 });
    positions.push(Placement { x: -(r + r / 2), y: r / 2 });
    assert(positions@ =~= ground_layout(radius as int));
    positions
}

/// The starting positions of the balls.
pub fn ball_positions(count: u32, spacing: i32, height: i32) -> (positions: Vec<Placement>)
    ensures
        positions@ == ball_layout(count as int, spacing as int, height as int),
{
    let mut positions: Vec<Placement> = Vec::new();
    let mut i: u32 = 0;
    while i < count
        invariant
            i <= count,
            positions@ == ball_layout(i as int, spacing as int, height as int),
        decreases count - i,
    {
        let offset: i64 = i as i64 - 1;
        assert(-0x1_0000_0000_0000_0000 < offset * (spacing as i64) < 0x1_0000_0000_0000_0000
            && i64::MIN <= offset * (spacing as i64) <= i64::MAX) by (nonlinear_arith)
            requires
                -1 <= offset < 0x1_0000_0000,
                -0x8000_0000 <= spacing < 0x8000_0000,
        ;
        positions.push(Placement { x: offset * (spacing as i64), y: height as i64 });
        i = i + 1;
        assert(positions@ =~= ball_layout(i as int, spacing as int, height as int));
    }
    positions
}

/// Lays out the scene that `config` asks for. A configuration with a shape
/// without extent is refused; the shapes of the plan are the requested ones
/// less the margin.
pub fn plan_scene(config: &SceneConfig) -> (r: Result<ScenePlan, SetupError>)
    ensures
        degenerate(*config) <==> r == Err::<ScenePlan, SetupError>(SetupError::DegenerateGeometry),
        !degenerate(*config) <==> r is Ok,
        r matches Ok(plan) ==> {
            &&& plan.margin == config.margin
            &&& plan.ground_shape.half_width == config.ground_radius - config.margin
            &&& plan.ground_shape.half_height == config.ground_radius - config.margin
            &&& plan.ground_positions@ == ground_layout(config.ground_radius as int)
            &&& plan.ball_shape.half_width == config.ball_radius - config.margin
            &&& plan.ball_shape.half_height == config.ball_radius - config.margin
            &&& plan.ball_positions@ == ball_layout(
                config.ball_count as int,
                config.ball_spacing as int,
                config.ball_height as int,
            )
            &&& plan.seed_velocity == config.seed_velocity
            &&& plan.restitution == config.restitution
            &&& plan.friction == config.friction
            &&& plan.ball_mass == config.ball_mass
            &&& plan.ball_angular_inertia == config.ball_angular_inertia
        },
{
    let margin: i64 = config.margin as i64;
    let ground: i64 = config.ground_radius as i64 - margin;
    let ball: i64 = config.ball_radius as i64 - margin;
    if ground <= 0 || ball <= 0 {
        return Err(SetupError::DegenerateGeometry);
    }
    Ok(
        ScenePlan {
            margin,
            ground_shape: BoxShape { half_width: ground, half_height: ground },
            ground_positions: ground_positions(config.ground_radius),
            ball_shape: BoxShape { half_width: ball, half_height: ball },
            ball_positions: ball_positions(config.ball_count, config.ball_spacing, config.ball_height),
            seed_velocity: config.seed_velocity,
            restitution: config.restitution as i64,
            friction: config.friction as i64,
            ball_mass: config.ball_mass as i64,
            ball_angular_inertia: config.ball_angular_inertia as i64,
        },
    )
}

/// A scene as it stands after setup: the registry of its bodies, the
/// identifiers in the order of their creation, and the ball that gets the
/// starting velocity.
#[derive(Debug)]
pub struct Scene {
    pub registry: EntityRegistry,
    pub ground_ids: Vec<BodyId>,
    pub ball_ids: Vec<BodyId>,
    /// The last ball created, if any.
    pub impulse_target: Option<BodyId>,
}

/// The roles of a scene: every ball is `Ball`, every other body `Ground`.
pub open spec fn scene_roles(ground_ids: Seq<BodyId>, ball_ids: Seq<BodyId>) -> Map<
    BodyId,
    EntityRole,
> {
    Map::new(
        |id: BodyId| ground_ids.contains(id) || ball_ids.contains(id),
        |id: BodyId|
            if ball_ids.contains(id) {
                EntityRole::Ball
            } else {
                EntityRole::Ground
            },
    )
}

/// `roles`, and `role` for every body of `ids` that has none in `roles`.
pub open spec fn extended(roles: Map<BodyId, EntityRole>, ids: Seq<BodyId>, role: EntityRole) -> Map<
    BodyId,
    EntityRole,
> {
    Map::new(
        |id: BodyId| roles.contains_key(id) || ids.contains(id),
        |id: BodyId|
            if roles.contains_key(id) {
                roles[id]
            } else {
                role
            },
    )
}

/// Whether `ids[at]` is the first identifier of `ids` that occurred before.
pub open spec fn first_repeat(ids: Seq<BodyId>, at: int) -> bool {
    &&& 0 <= at < ids.len()
    &&& ids.take(at).no_duplicates()
    &&& ids.take(at).contains(ids[at])
}

/// A sequence with a repeated identifier has duplicates.
pub proof fn lemma_repeat_is_duplicate(ids: Seq<BodyId>, at: int)
    requires
        first_repeat(ids, at),
    ensures
        !ids.no_duplicates(),
{
    let front = ids.take(at);
    let k = choose|k: int| 0 <= k < front.len() && front[k] == ids[at];
    assert(ids[k] == ids[at]);
}

/// Whether the engine created no ground block, or no ball, although the plan
/// asked for some.
pub open spec fn starved(plan: ScenePlan, grounds: nat, balls: nat) -> bool {
    (plan.ground_positions@.len() > 0 && grounds == 0) || (plan.ball_positions@.len() > 0 && balls
        == 0)
}

/// The identifier that a collider handle stands for.
pub open spec fn id_of_handle(handle: DefaultColliderHandle) -> BodyId {
    BodyId { slot: handle_parts(handle).0, generation: handle_parts(handle).1 }
}

/// The identifiers that collider handles stand for, in their order.
pub open spec fn ids_of_handles(handles: Seq<DefaultColliderHandle>) -> Seq<BodyId> {
    Seq::new(handles.len(), |i: int| id_of_handle(handles[i]))
}

/// Registers the bodies of `ids` with `role`, in their order, and stops at the
/// first that already has a role.
fn register_each(registry: &mut EntityRegistry, ids: &Vec<BodyId>, role: EntityRole) -> (r: Result<
    (),
    (usize, BodyId),
>)
    requires
        old(registry).wf(),
    ensures
        final(registry).wf(),
        match r {
            Ok(_) => {
                &&& ids@.no_duplicates()
                &&& forall|k: int| 0 <= k < ids@.len() ==> !old(registry)@.contains_key(#[trigger] ids@[k])
                &&& final(registry)@ == extended(old(registry)@, ids@, role)
                &&& final(registry).balls() == if role == EntityRole::Ball {
                    old(registry).balls() + ids@
                } else {
                    old(registry).balls()
                }
            },
            Err((at, id)) => {
                &&& 0 <= at < ids@.len()
                &&& id == ids@[at as int]
                &&& ids@.take(at as int).no_duplicates()
                &&& forall|k: int| 0 <= k < at ==> !old(registry)@.contains_key(#[trigger] ids@[k])
                &&& old(registry)@.contains_key(id) || ids@.take(at as int).contains(id)
            },
        },
{
    let mut i: usize = 0;
    proof {
        assert(registry@ =~= extended(old(registry)@, ids@.take(0), role));
        assert(old(registry).balls() + ids@.take(0) =~= old(registry).balls());
    }
    while i < ids.len()
        invariant
            i <= ids.len(),
            registry.wf(),
            ids@.take(i as int).no_duplicates(),
            forall|k: int| 0 <= k < i ==> !old(registry)@.contains_key(#[trigger] ids@[k]),
            registry@ == extended(old(registry)@, ids@.take(i as int), role),
            registry.balls() == if role == EntityRole::Ball {
                old(registry).balls() + ids@.take(i as int)
            } else {
                old(registry).balls()
            },
        decreases ids.len() - i,
    {
        let id = ids[i];
        let ghost before = registry@;
        let ghost seen = ids@.take(i as int);
        match registry.register(id, role) {
            Err(_) => {
                return Err((i, id));
            },
            Ok(_) => {},
        }
        proof {
            let next = ids@.take(i as int + 1);
            assert(next =~= seen.push(id));
            assert(!seen.contains(id));
            assert(next.no_duplicates()) by {
                assert forall|a: int, b: int|
                    0 <= a < next.len() && 0 <= b < next.len() && a != b implies next[a]
                    != next[b] by {
                    if a == i {
                        assert(seen[b] == next[b]);
                    } else if b == i {
                        assert(seen[a] == next[a]);
                    } else {
                        assert(seen[a] == next[a] && seen[b] == next[b]);
                    }
                }
            }
            assert(registry@ =~= extended(old(registry)@, next, role)) by {
                assert forall|other: BodyId| #[trigger]
                    next.contains(other) <==> seen.contains(other) || other == id by {
                    if seen.contains(other) {
                        let k = choose|k: int| 0 <= k < seen.len() && seen[k] == other;
                        assert(next[k] == other);
                    }
                    if other == id {
                        assert(next[i as int] == id);
                    }
                    if next.contains(other) {
                        let k = choose|k: int| 0 <= k < next.len() && next[k] == other;
                        if k < i {
                            assert(seen[k] == other);
                        }
                    }
                }
            }
            if role == EntityRole::Ball {
                assert(old(registry).balls() + next =~= (old(registry).balls() + seen).push(id));
            }
        }
        i = i + 1;
    }
    assert(ids@.take(i as int) =~= ids@);
    Ok(())
}

/// Gives every body that the engine created its role: `Ground` to the
/// ground blocks, `Ball` to the balls, in the order of their creation.
///
/// Setup fails where the plan asked for ground blocks or balls and the
/// engine created none of them, and where one identifier occurs twice; the
/// error then names the first identifier, grounds before balls, that
/// occurred before.
pub fn register_bodies(plan: &ScenePlan, ground_ids: Vec<BodyId>, ball_ids: Vec<BodyId>) -> (r: Result<
    Scene,
    SetupError,
>)
    ensures
        r is Ok <==> !starved(*plan, ground_ids@.len(), ball_ids@.len()) && (ground_ids@
            + ball_ids@).no_duplicates(),
        starved(*plan, ground_ids@.len(), ball_ids@.len()) ==> r == Err::<Scene, SetupError>(
            SetupError::NoBodiesCreated,
        ),
        !starved(*plan, ground_ids@.len(), ball_ids@.len()) ==> match r {
            Ok(scene) => {
                &&& (ground_ids@ + ball_ids@).no_duplicates()
                &&& scene.registry.wf()
                &&& scene.registry@ == scene_roles(ground_ids@, ball_ids@)
                &&& scene.registry.balls() == ball_ids@
                &&& scene.ground_ids@ == ground_ids@
                &&& scene.ball_ids@ == ball_ids@
                &&& scene.impulse_target == if ball_ids@.len() > 0 {
                    Some(ball_ids@.last())
                } else {
                    None
                }
            },
            Err(SetupError::DuplicateBody(id)) => exists|at: int|
                first_repeat(ground_ids@ + ball_ids@, at) && (ground_ids@ + ball_ids@)[at] == id,
            Err(_) => false,
        },
{
    if (plan.ground_positions.len() > 0 && ground_ids.len() == 0) || (plan.ball_positions.len() > 0
        && ball_ids.len() == 0) {
        return Err(SetupError::NoBodiesCreated);
    }
    let ghost all = ground_ids@ + ball_ids@;
    let ghost split = ground_ids@.len() as int;
    let mut registry = EntityRegistry::new();
    match register_each(&mut registry, &ground_ids, EntityRole::Ground) {
        Err((at, id)) => {
            proof {
                assert(all.take(at as int) =~= ground_ids@.take(at as int));
                assert(all[at as int] == id);
                assert(first_repeat(all, at as int));
                lemma_repeat_is_duplicate(all, at as int);
            }
            return Err(SetupError::DuplicateBody(id));
        },
        Ok(_) => {},
    }
    let ghost after_grounds = registry@;
    proof {
        assert forall|id: BodyId| after_grounds.contains_key(id) <==> ground_ids@.contains(id) by {}
    }
    match register_each(&mut registry, &ball_ids, EntityRole::Ball) {
        Err((at, id)) => {
            proof {
                let front = all.take(split + at);
                let seen = ball_ids@.take(at as int);
                assert(front =~= ground_ids@ + seen);
                assert(all[split + at] == id);
                assert(front.no_duplicates()) by {
                    assert forall|a: int, b: int|
                        0 <= a < front.len() && 0 <= b < front.len() && a != b implies front[a]
                        != front[b] by {
                        if a < split && b >= split {
                            assert(!after_grounds.contains_key(ball_ids@[b - split]));
                            assert(ground_ids@.contains(front[a]));
                        } else if b < split && a >= split {
                            assert(!after_grounds.contains_key(ball_ids@[a - split]));
                            assert(ground_ids@.contains(front[b]));
                        } else if a >= split {
                            assert(seen[a - split] == front[a] && seen[b - split] == front[b]);
                        }
                    }
                }
                assert(front.contains(id)) by {
                    if after_grounds.contains_key(id) {
                        let k = choose|k: int| 0 <= k < ground_ids@.len() && ground_ids@[k] == id;
                        assert(front[k] == id);
                    } else {
                        let k = choose|k: int| 0 <= k < seen.len() && seen[k] == id;
                        assert(front[split + k] == id);
                    }
                }
                assert(first_repeat(all, split + at));
                lemma_repeat_is_duplicate(all, split + at);
            }
            return Err(SetupError::DuplicateBody(id));
        },
        Ok(_) => {},
    }
    proof {
        assert(all.no_duplicates()) by {
            assert forall|a: int, b: int|
                0 <= a < all.len() && 0 <= b < all.len() && a != b implies all[a] != all[b] by {
                if a < split && b >= split {
                    assert(!after_grounds.contains_key(ball_ids@[b - split]));
                    assert(ground_ids@.contains(all[a]));
                } else if b < split && a >= split {
                    assert(!after_grounds.contains_key(ball_ids@[a - split]));
                    assert(ground_ids@.contains(all[b]));
                }
            }
        }
        assert(registry@ =~= scene_roles(ground_ids@, ball_ids@)) by {
            assert forall|id: BodyId| ball_ids@.contains(id) implies !after_grounds.contains_key(
                id,
            ) by {
                let k = choose|k: int| 0 <= k < ball_ids@.len() && ball_ids@[k] == id;
                assert(!after_grounds.contains_key(ball_ids@[k]));
            }
        }
        assert(Seq::<BodyId>::empty() + ball_ids@ =~= ball_ids@);
    }
    let impulse_target = if ball_ids.len() > 0 {
        Some(ball_ids[ball_ids.len() - 1])
    } else {
        None
    };
    Ok(Scene { registry, ground_ids, ball_ids, impulse_target })
}

/// The identifiers that the engine's collider handles stand for.
pub fn ids_of_colliders(handles: &Vec<DefaultColliderHandle>) -> (ids: Vec<BodyId>)
    ensures
        ids@ == ids_of_handles(handles@),
{
    let mut ids: Vec<BodyId> = Vec::new();
    let mut i: usize = 0;
    while i < handles.len()
        invariant
            i <= handles.len(),
            ids@ == ids_of_handles(handles@.take(i as int)),
        decreases handles.len() - i,
    {
        ids.push(collider_id(handles[i]));
        i = i + 1;
        assert(ids@ =~= ids_of_handles(handles@.take(i as int)));
    }
    assert(handles@.take(i as int) =~= handles@);
    ids
}

/// Sets up the registry for the colliders that the engine created for a
/// plan: as `register_bodies`, on the identifiers that the handles stand for.
pub fn register_scene(
    plan: &ScenePlan,
    grounds: &Vec<DefaultColliderHandle>,
    balls: &Vec<DefaultColliderHandle>,
) -> (r: Result<Scene, SetupError>)
    ensures
        r is Ok <==> !starved(*plan, grounds@.len(), balls@.len()) && (ids_of_handles(grounds@)
            + ids_of_handles(balls@)).no_duplicates(),
        starved(*plan, grounds@.len(), balls@.len()) ==> r == Err::<Scene, SetupError>(
            SetupError::NoBodiesCreated,
        ),
        !starved(*plan, grounds@.len(), balls@.len()) ==> match r {
            Ok(scene) => {
                &&& (ids_of_handles(grounds@) + ids_of_handles(balls@)).no_duplicates()
                &&& scene.registry.wf()
                &&& scene.registry@ == scene_roles(ids_of_handles(grounds@), ids_of_handles(balls@))
                &&& scene.registry.balls() == ids_of_handles(balls@)
                &&& scene.ground_ids@ == ids_of_handles(grounds@)
                &&& scene.ball_ids@ == ids_of_handles(balls@)
                &&& scene.impulse_target == if balls@.len() > 0 {
                    Some(id_of_handle(balls@.last()))
                } else {
                    None
                }
            },
            Err(SetupError::DuplicateBody(id)) => exists|at: int|
                first_repeat(ids_of_handles(grounds@) + ids_of_handles(balls@), at) && (
                ids_of_handles(grounds@) + ids_of_handles(balls@))[at] == id,
            Err(_) => false,
        },
{
    let ground_ids = ids_of_colliders(grounds);
    let ball_ids = ids_of_colliders(balls);
    register_bodies(plan, ground_ids, ball_ids)
}

} // verus!
