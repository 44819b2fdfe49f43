use vstd::prelude::*;
use bevy::ecs::entity::Entity;

verus! {

/// The bits of the placeholder entity: index `u32::MAX`, generation one.
pub open spec fn placeholder_bits() -> u64 {
    0x1_ffff_ffffu64
}

/// An entity of the game world, held by the bits that identify it.
#[derive(Clone, Copy, Debug, PartialEq, Eq, Structural, Hash)]
pub struct EntityId(pub u64);

impl EntityId {
    /// The entity with the given identifying bits.
    pub fn from_bits(bits: u64) -> (e: EntityId)
        ensures
            e.0 == bits,
    {
        EntityId(bits)
    }

    /// The identifying bits of this entity.
    pub fn to_bits(self) -> (bits: u64)
        ensures
            bits == self.0,
    {
        self.0
    }

    /// The placeholder entity, which stands for "no entity yet".
    pub fn placeholder() -> (e: EntityId)
        ensures
            e.0 == placeholder_bits(),
    {
        EntityId(entity_placeholder_bits())
    }
}

/// Calls `Entity::PLACEHOLDER.to_bits()` of the ECS. Claims what its source
/// shows: the placeholder is `Entity::from_raw(u32::MAX)`, whose generation is
/// one, and `to_bits` packs the generation above the index.
#[verifier::external_body]
fn entity_placeholder_bits() -> (bits: u64)
    ensures
        bits == placeholder_bits(),
{
    Entity::PLACEHOLDER.to_bits()
}

} // verus!
