//! Entity identifiers, as the 64 bits that bevy hands out for them.

use bevy::ecs::entity::Entity;
use vstd::prelude::*;

verus! {

/// The text that bevy's `Debug` impl writes for the entity with these bits.
pub uninterp spec fn entity_debug_text(bits: u64) -> Seq<char>;

/// Whether `bits` identify an entity: the upper half, the generation, is
/// neither zero nor flagged as a placeholder.
pub open spec fn is_entity_bits(bits: u64) -> bool {
    0x1_0000_0000 <= bits < 0x8000_0000_0000_0000
}

/// Formats the entity that `Entity::from_bits` makes of `bits` with `{:?}`.
///
/// `from_bits` panics unless the upper 32 bits are nonzero with the top bit
/// clear, which `requires` demands. The text is whatever `Entity`'s `Debug`
/// writes: it depends on the bits alone, and nothing more is claimed of it.
#[verifier::external_body]
fn format_entity(bits: u64) -> (text: String)
    requires
        is_entity_bits(bits),
    ensures
        text@ == entity_debug_text(bits),
{
    format!("{:?}", Entity::from_bits(bits))
}

/// An entity identifier that is known to be one.
#[derive(Clone, Copy, Debug, PartialEq, Eq, Structural)]
pub struct EntityId {
    bits: u64,
}

impl EntityId {
    #[verifier::type_invariant]
    spec fn well_formed(self) -> bool {
        is_entity_bits(self.bits)
    }

    /// The bits of this identifier.
    pub closed spec fn bits(self) -> u64 {
        self.bits
    }

    /// Two identifiers are the same exactly when their bits are.
    pub proof fn lemma_bits_identify(self, other: EntityId)
        ensures
            self.bits() == other.bits() <==> self == other,
    {
    }

    /// The identifier with the given bits, where they identify an entity.
    pub fn from_bits(bits: u64) -> (id: Option<EntityId>)
        ensures
            id is Some <==> is_entity_bits(bits),
            id matches Some(e) ==> e.bits() == bits,
    {
        if 0x1_0000_0000 <= bits && bits < 0x8000_0000_0000_0000 {
            Some(EntityId { bits })
        } else {
            None
        }
    }

    /// The bits to make a bevy `Entity` of.
    pub fn to_bits(&self) -> (bits: u64)
        ensures
            bits == self.bits(),
            is_entity_bits(bits),
    {
        proof {
            use_type_invariant(self);
        }
        self.bits
    }

    /// The text that stands for this entity in a log line.
    pub fn debug_text(&self) -> (text: String)
        ensures
            text@ == entity_debug_text(self.bits()),
    {
        proof {
            use_type_invariant(self);
        }
        format_entity(self.bits)
    }
}

} // verus!
