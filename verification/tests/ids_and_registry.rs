use sim_core::ids::{BodyId, EntityRole};
use sim_core::registry::{EntityRegistry, RegistryError};

#[test]
fn body_id_keeps_its_parts() {
    let id = BodyId::new(7, 3);
    assert_eq!(id.slot(), 7);
    assert_eq!(id.generation(), 3);
    assert_eq!(id, BodyId { slot: 7, generation: 3 });
}

#[test]
fn packed_key_puts_the_slot_above_the_generation() {
    assert_eq!(BodyId::new(0, 0).packed(), 0);
    assert_eq!(BodyId::new(0, 5).packed(), 5);
    assert_eq!(BodyId::new(1, 2).packed(), 18_446_744_073_709_551_616u128 + 2);
    assert_eq!(BodyId::new(3, u64::MAX).packed(), 4 * 18_446_744_073_709_551_616u128 - 1);
}

#[test]
fn packed_key_is_different_for_different_ids() {
    let ids = [
        BodyId::new(0, 0),
        BodyId::new(0, 1),
        BodyId::new(1, 0),
        BodyId::new(1, 1),
        BodyId::new(0, u64::MAX),
    ];
    for (i, a) in ids.iter().enumerate() {
        for (j, b) in ids.iter().enumerate() {
            assert_eq!(a.packed() == b.packed(), i == j);
        }
    }
}

#[test]
fn precedes_orders_by_slot_then_generation() {
    assert!(BodyId::new(1, 9).precedes(&BodyId::new(2, 0)));
    assert!(!BodyId::new(2, 0).precedes(&BodyId::new(1, 9)));
    assert!(BodyId::new(2, 0).precedes(&BodyId::new(2, 1)));
    assert!(!BodyId::new(2, 1).precedes(&BodyId::new(2, 1)));
    assert!(BodyId::new(0, u64::MAX).precedes(&BodyId::new(1, 0)));
}

#[test]
fn precedes_agrees_with_the_packed_key() {
    let ids = [BodyId::new(0, 4), BodyId::new(5, 0), BodyId::new(5, 1), BodyId::new(4, u64::MAX)];
    for a in ids.iter() {
        for b in ids.iter() {
            assert_eq!(a.precedes(b), a.packed() < b.packed());
        }
    }
}

#[test]
fn new_registry_knows_nobody() {
    let registry = EntityRegistry::new();
    assert_eq!(registry.role_of(BodyId::new(0, 0)), None);
    assert!(!registry.is_tracked_ball(BodyId::new(0, 0)));
    assert!(registry.tracked_ids().is_empty());
}

#[test]
fn register_then_role_of() {
    let mut registry = EntityRegistry::new();
    assert_eq!(registry.register(BodyId::new(0, 0), EntityRole::Ground), Ok(()));
    assert_eq!(registry.register(BodyId::new(1, 0), EntityRole::Ball), Ok(()));
    assert_eq!(registry.role_of(BodyId::new(0, 0)), Some(EntityRole::Ground));
    assert_eq!(registry.role_of(BodyId::new(1, 0)), Some(EntityRole::Ball));
    assert_eq!(registry.role_of(BodyId::new(1, 1)), None);
    assert_eq!(registry.role_of(BodyId::new(2, 0)), None);
}

#[test]
fn is_tracked_ball_is_true_for_balls_only() {
    let mut registry = EntityRegistry::new();
    registry.register(BodyId::new(0, 0), EntityRole::Ground).unwrap();
    registry.register(BodyId::new(1, 0), EntityRole::Ball).unwrap();
    assert!(!registry.is_tracked_ball(BodyId::new(0, 0)));
    assert!(registry.is_tracked_ball(BodyId::new(1, 0)));
    assert!(!registry.is_tracked_ball(BodyId::new(9, 9)));
}

#[test]
fn registering_the_same_id_twice_fails() {
    let mut registry = EntityRegistry::new();
    let id = BodyId::new(4, 2);
    assert_eq!(registry.register(id, EntityRole::Ball), Ok(()));
    assert_eq!(registry.register(id, EntityRole::Ball), Err(RegistryError::DuplicateId(id)));
}

#[test]
fn a_refused_registration_does_not_overwrite_the_role() {
    let mut registry = EntityRegistry::new();
    let id = BodyId::new(4, 2);
    registry.register(id, EntityRole::Ball).unwrap();
    assert_eq!(registry.register(id, EntityRole::Ground), Err(RegistryError::DuplicateId(id)));
    assert_eq!(registry.role_of(id), Some(EntityRole::Ball));
    assert_eq!(registry.tracked_ids(), &vec![id]);

    let ground = BodyId::new(5, 0);
    registry.register(ground, EntityRole::Ground).unwrap();
    assert_eq!(registry.register(ground, EntityRole::Ball), Err(RegistryError::DuplicateId(ground)));
    assert_eq!(registry.role_of(ground), Some(EntityRole::Ground));
    assert_eq!(registry.tracked_ids(), &vec![id]);
}

#[test]
fn same_slot_in_another_generation_is_another_body() {
    let mut registry = EntityRegistry::new();
    assert_eq!(registry.register(BodyId::new(3, 0), EntityRole::Ball), Ok(()));
    assert_eq!(registry.register(BodyId::new(3, 1), EntityRole::Ground), Ok(()));
    assert_eq!(registry.role_of(BodyId::new(3, 0)), Some(EntityRole::Ball));
    assert_eq!(registry.role_of(BodyId::new(3, 1)), Some(EntityRole::Ground));
}

#[test]
fn tracked_ids_lists_balls_in_registration_order() {
    let mut registry = EntityRegistry::new();
    registry.register(BodyId::new(9, 0), EntityRole::Ball).unwrap();
    registry.register(BodyId::new(1, 0), EntityRole::Ground).unwrap();
    registry.register(BodyId::new(2, 0), EntityRole::Ball).unwrap();
    registry.register(BodyId::new(5, 0), EntityRole::Ball).unwrap();
    assert_eq!(
        registry.tracked_ids(),
        &vec![BodyId::new(9, 0), BodyId::new(2, 0), BodyId::new(5, 0)]
    );
}
