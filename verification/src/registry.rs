//! The entity registry: which role each body of the scene plays, and which
//! bodies are tracked balls.

use std::collections::HashMap;
use vstd::prelude::*;
use crate::ids::{BodyId, EntityRole};

verus! {

broadcast use vstd::std_specs::hash::group_hash_axioms;

/// Why a registration was refused.
#[derive(Clone, Copy, Debug, PartialEq, Eq, Structural)]
pub enum RegistryError {
    /// The identifier already has a role.
    DuplicateId(BodyId),
}

/// Maps each registered body to its role and keeps the tracked balls in the
/// order of their registration.
#[derive(Debug)]
pub struct EntityRegistry {
    roles: HashMap<u128, EntityRole>,
    balls: Vec<BodyId>,
}

impl View for EntityRegistry {
    type V = Map<BodyId, EntityRole>;

    /// The role of every registered body.
    closed spec fn view(&self) -> Map<BodyId, EntityRole> {
        Map::new(
            |id: BodyId| self.roles@.contains_key(id.key() as u128),
            |id: BodyId| self.roles@[id.key() as u128],
        )
    }
}

/// Whether `roles` gives `id` the role `Ball`.
pub open spec fn is_ball(roles: Map<BodyId, EntityRole>, id: BodyId) -> bool {
    roles.contains_key(id) && roles[id] == EntityRole::Ball
}

impl EntityRegistry {
    /// The tracked balls in the order in which they were registered.
    pub closed spec fn balls(&self) -> Seq<BodyId> {
        self.balls@
    }

    /// The tracked balls are exactly the bodies with role `Ball`, each listed
    /// once.
    pub closed spec fn wf(&self) -> bool {
        &&& self.balls@.no_duplicates()
        &&& forall|id: BodyId| #[trigger] self.balls@.contains(id) <==> is_ball(self@, id)
    }

    /// In a well-formed registry the tracked balls are the bodies with role
    /// `Ball`, and none is listed twice.
    pub proof fn lemma_balls_have_ball_role(&self)
        requires
            self.wf(),
        ensures
            self.balls().no_duplicates(),
            forall|id: BodyId| #[trigger] self.balls().contains(id) <==> is_ball(self@, id),
    {
    }

    /// A registry without any body.
    pub fn new() -> (registry: EntityRegistry)
        ensures
            registry.wf(),
            registry@ == Map::<BodyId, EntityRole>::empty(),
            registry.balls() == Seq::<BodyId>::empty(),
    {
        let registry = EntityRegistry { roles: HashMap::new(), balls: Vec::new() };
        assert(registry@ =~= Map::<BodyId, EntityRole>::empty());
        registry
    }

    /// Gives `id` the role `role`. An identifier that already has a role
    /// keeps it: the call is refused and the registry stays as it was.
    pub fn register(&mut self, id: BodyId, role: EntityRole) -> (r: Result<(), RegistryError>)
        requires
            old(self).wf(),
        ensures
            final(self).wf(),
            old(self)@.contains_key(id) ==> {
                &&& r == Err::<(), RegistryError>(RegistryError::DuplicateId(id))
                &&& final(self)@ == old(self)@
                &&& final(self).balls() == old(self).balls()
            },
            !old(self)@.contains_key(id) ==> {
                &&& r == Ok::<(), RegistryError>(())
                &&& final(self)@ == old(self)@.insert(id, role)
                &&& final(self).balls() == if role == EntityRole::Ball {
                    old(self).balls().push(id)
                } else {
                    old(self).balls()
                }
            },
    {
        let k: u128 = id.packed();
        if self.roles.contains_key(&k) {
            return Err(RegistryError::DuplicateId(id));
        }
        self.roles.insert(k, role);
        if role == EntityRole::Ball {
            self.balls.push(id);
        }
        proof {
            assert(self@ =~= old(self)@.insert(id, role)) by {
                assert forall|other: BodyId| #[trigger]
                    self@.contains_key(other) == old(self)@.insert(id, role).contains_key(
                        other,
                    ) by {
                    if other.key() == id.key() {
                        crate::ids::lemma_key_injective(other, id);
                    }
                }
                assert forall|other: BodyId| #[trigger] self@.contains_key(other) implies self@[other]
                    == old(self)@.insert(id, role)[other] by {
                    if other.key() == id.key() {
                        crate::ids::lemma_key_injective(other, id);
                    }
                }
            }
            assert forall|other: BodyId| #[trigger]
                self.balls@.contains(other) <==> is_ball(self@, other) by {
                if role == EntityRole::Ball {
                    assert(self.balls@ == old(self).balls@.push(id));
                    if self.balls@.contains(other) {
                        let i = choose|i: int| 0 <= i < self.balls@.len() && self.balls@[i] == other;
                        if i < old(self).balls@.len() {
                            assert(old(self).balls@[i] == other);
                            assert(old(self).balls@.contains(other));
                        }
                    }
                    if is_ball(self@, other) {
                        if other == id {
                            assert(self.balls@[old(self).balls@.len() as int] == id);
                        } else {
                            assert(old(self).balls@.contains(other));
                            let i = choose|i: int|
                                0 <= i < old(self).balls@.len() && old(self).balls@[i] == other;
                            assert(self.balls@[i] == other);
                        }
                    }
                }
            }
            if role == EntityRole::Ball {
                assert(!old(self).balls@.contains(id));
                assert(self.balls@.no_duplicates()) by {
                    assert forall|i: int, j: int|
                        0 <= i < self.balls@.len() && 0 <= j < self.balls@.len() && i != j implies
                        self.balls@[i] != self.balls@[j] by {
                        if i == old(self).balls@.len() {
                            assert(old(self).balls@[j] == self.balls@[j]);
                        } else if j == old(self).balls@.len() {
                            assert(old(self).balls@[i] == self.balls@[i]);
                        }
                    }
                }
            }
        }
        Ok(())
    }

    /// The role of `id`, or `None` for a body that was never registered.
    pub fn role_of(&self, id: BodyId) -> (role: Option<EntityRole>)
        ensures
            role == if self@.contains_key(id) {
                Some(self@[id])
            } else {
                None
            },
    {
        let k: u128 = id.packed();
        match self.roles.get(&k) {
            Some(role) => Some(*role),
            None => None,
        }
    }

    /// Whether `id` is registered with role `Ball`.
    pub fn is_tracked_ball(&self, id: BodyId) -> (yes: bool)
        ensures
            yes == is_ball(self@, id),
    {
        match self.role_of(id) {
            Some(EntityRole::Ball) => true,
            _ => false,
        }
    }

    /// The tracked balls in the order in which they were registered.
    pub fn tracked_ids(&self) -> (ids: &Vec<BodyId>)
        ensures
            ids@ == self.balls(),
    {
        &self.balls
    }
}

} // verus!
