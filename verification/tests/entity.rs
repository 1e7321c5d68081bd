use bevy::ecs::entity::Entity;
use sickle_ui::entity::EntityId;

#[test]
fn bits_of_an_entity_round_trip() {
    let bits = Entity::from_raw(7).to_bits();
    let id = EntityId::from_bits(bits).unwrap();
    assert_eq!(id.to_bits(), bits);
}

#[test]
fn first_generation_is_the_least_identifier() {
    assert!(EntityId::from_bits(0x1_0000_0000).is_some());
    assert_eq!(Entity::from_raw(0).to_bits(), 0x1_0000_0000);
}

#[test]
fn zero_generation_is_no_entity() {
    assert!(EntityId::from_bits(0).is_none());
    assert!(EntityId::from_bits(7).is_none());
    assert!(EntityId::from_bits(0xFFFF_FFFF).is_none());
    assert!(Entity::try_from_bits(0xFFFF_FFFF).is_err());
}

#[test]
fn flagged_generation_is_no_entity() {
    assert!(EntityId::from_bits(0x8000_0000_0000_0000).is_none());
    assert!(EntityId::from_bits(0x8000_0001_0000_0005).is_none());
    assert!(EntityId::from_bits(u64::MAX).is_none());
    assert!(Entity::try_from_bits(0x8000_0000_0000_0000).is_err());
    assert!(Entity::try_from_bits(u64::MAX).is_err());
}

#[test]
fn greatest_generation_is_an_entity() {
    let bits: u64 = 0x7FFF_FFFF_FFFF_FFFF;
    assert!(Entity::try_from_bits(bits).is_ok());
    let id = EntityId::from_bits(bits).unwrap();
    assert_eq!(id.to_bits(), bits);
}

#[test]
fn validity_agrees_with_bevy() {
    let samples: [u64; 12] = [
        0,
        1,
        0xFFFF_FFFF,
        0x1_0000_0000,
        0x1_0000_0001,
        0x2_0000_0000,
        0x7FFF_FFFF_0000_0000,
        0x7FFF_FFFF_FFFF_FFFF,
        0x8000_0000_0000_0000,
        0x8000_0000_FFFF_FFFF,
        0xFFFF_FFFF_0000_0000,
        u64::MAX,
    ];
    for bits in samples {
        assert_eq!(
            EntityId::from_bits(bits).is_some(),
            Entity::try_from_bits(bits).is_ok(),
            "bits {:#x}",
            bits
        );
    }
}

#[test]
fn debug_text_is_bevys() {
    let entity = Entity::from_raw(254);
    let id = EntityId::from_bits(entity.to_bits()).unwrap();
    assert_eq!(id.debug_text(), format!("{:?}", entity));
}

#[test]
fn debug_text_tells_entities_apart() {
    let one = EntityId::from_bits(Entity::from_raw(1).to_bits()).unwrap();
    let two = EntityId::from_bits(Entity::from_raw(2).to_bits()).unwrap();
    assert_ne!(one.debug_text(), two.debug_text());
    assert_ne!(one.debug_text(), format!("{}", one.to_bits()));
}

#[test]
fn placeholder_is_an_entity() {
    let id = EntityId::from_bits(Entity::PLACEHOLDER.to_bits()).unwrap();
    assert_eq!(id.debug_text(), format!("{:?}", Entity::PLACEHOLDER));
}
