//! Identifiers of simulated bodies and the roles they play in a scene.

use vstd::prelude::*;

verus! {

/// Identifier that the simulation engine assigned to a body or a static
/// collider: the slot of the engine's arena and the generation of that slot.
/// Two bodies of one run never share both.
#[derive(Clone, Copy, Debug, PartialEq, Eq, Structural, Hash)]
pub struct BodyId {
    pub slot: usize,
    pub generation: u64,
}

/// Number of generations that one slot can go through.
pub const GENERATIONS: u128 = 0x1_0000_0000_0000_0000;

impl BodyId {
    /// The position of the identifier in the ascending order of identifiers:
    /// slots first, generations within a slot.
    pub open spec fn key(self) -> int {
        self.slot * 0x1_0000_0000_0000_0000 + self.generation
    }

    /// Builds the identifier from the two numbers the engine hands out.
    pub fn new(slot: usize, generation: u64) -> (id: BodyId)
        ensures
            id.slot == slot,
            id.generation == generation,
    {
        BodyId { slot, generation }
    }

    /// The arena slot of the body.
    pub fn slot(&self) -> (slot: usize)
        ensures
            slot == self.slot,
    {
        self.slot
    }

    /// The generation of the slot at the time the body was created.
    pub fn generation(&self) -> (generation: u64)
        ensures
            generation == self.generation,
    {
        self.generation
    }

    /// The key as a machine integer, fit to index a hash map.
    pub fn packed(&self) -> (k: u128)
        ensures
            k == self.key(),
    {
        let slot: u128 = self.slot as u128;
        let generation: u128 = self.generation as u128;
        slot * GENERATIONS + generation
    }

    /// Whether this identifier comes strictly before `other` in the
    /// ascending order.
    pub fn precedes(&self, other: &BodyId) -> (b: bool)
        ensures
            b == (self.key() < other.key()),
    {
        self.slot < other.slot || (self.slot == other.slot && self.generation < other.generation)
    }
}

/// Distinct identifiers have distinct keys.
pub proof fn lemma_key_injective(a: BodyId, b: BodyId)
    requires
        a.key() == b.key(),
    ensures
        a == b,
{
}

/// What a registered body is to the scene.
#[derive(Clone, Copy, Debug, PartialEq, Eq, Structural, Hash)]
pub enum EntityRole {
    /// Static scenery.
    Ground,
    /// A dynamic body whose state is published every tick.
    Ball,
}

} // verus!
