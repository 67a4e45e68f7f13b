//! Entity store, entity builders and the fixed-point physics model.

use simcore::behaviors::{
    BehaviorData, BehaviorDataContainerEnum, Behaviors, CollisionBehaviors, CollisionData,
    CollisionDataContainerEnum, SpawnBallData,
};
use simcore::entity::{make_go, make_go_rb, GameObject};
use simcore::fxmath::{clamp_i64, isqrt, mul_div, rem_trunc, sat_add, FxVec2, FxVec3};
use simcore::physics::{BodyKind, ColliderShape, PhysCommand, PhysicsWorld};
use simcore::store::GameObjectStore;

fn visual_entity() -> GameObject {
    make_go(
        FxVec3 { x: 1000, y: 2000, z: 0 },
        FxVec3 { x: 0, y: 0, z: 0 },
        FxVec3 { x: 1000, y: 1000, z: 1000 },
        FxVec3 { x: 0, y: 0, z: 0 },
        FxVec3 { x: 0, y: 0, z: 0 },
        FxVec3 { x: 1000, y: 1000, z: 1000 },
        3,
    )
}

#[test]
fn store_assigns_fresh_increasing_ids() {
    let mut store = GameObjectStore::new();
    let a = store.add(visual_entity());
    let b = store.add(visual_entity());
    assert_eq!(a, 1);
    assert_eq!(b, 2);
    let removed = a;
    store.remove(&removed);
    // the freed identity is never handed out again
    let c = store.add(visual_entity());
    assert_eq!(c, 3);
    assert!(store.get(a).is_none());
    assert!(store.get(b).is_some());
    assert!(store.get(c).is_some());
}

#[test]
fn store_remove_missing_is_noop() {
    let mut store = GameObjectStore::new();
    let a = store.add(visual_entity());
    let ghost_id = 77;
    store.remove(&ghost_id);
    assert_eq!(store.objects.len(), 1);
    assert_eq!(store.get(a).unwrap().position.x, 1000);
    // removing twice is just as harmless
    store.remove(&a);
    store.remove(&a);
    assert_eq!(store.objects.len(), 0);
}

#[test]
fn store_handle_map_tracks_bound_entities() {
    let mut store = GameObjectStore::new();
    let mut phys = PhysicsWorld::new();
    let h = phys.insert_body(BodyKind::Dynamic, FxVec2 { x: 0, y: 0 }, false, 1000);
    let id = store.add(make_go_rb(
        FxVec3 { x: 0, y: 0, z: 0 },
        FxVec3 { x: 0, y: 0, z: 0 },
        FxVec3 { x: 1000, y: 1000, z: 1000 },
        FxVec3 { x: 0, y: 0, z: 0 },
        FxVec3 { x: 0, y: 0, z: 0 },
        FxVec3 { x: 1000, y: 1000, z: 1000 },
        0,
        h,
    ));
    assert_eq!(store.lookup_by_rb_handle(&h), Some(id));
    store.remove(&id);
    // the mapping leaves exactly when the entity does
    assert_eq!(store.lookup_by_rb_handle(&h), None);
}

#[test]
fn entity_behavior_set_holds_no_duplicates() {
    let go = GameObject::empty()
        .add_behavior(Behaviors::BArrowControl)
        .add_behavior(Behaviors::BArrowControl)
        .add_behavior(Behaviors::BSpawnBall);
    assert_eq!(go.behaviors.len(), 2);
}

#[test]
fn entity_behavior_data_overwrites_per_key() {
    let key = BehaviorData::Behaviors(Behaviors::BSpawnBall);
    let go = GameObject::empty()
        .add_behavior_data(
            Behaviors::BSpawnBall,
            BehaviorDataContainerEnum::SpawnBallData(SpawnBallData {
                last_use: 0,
                cooldown_length: 1000,
            }),
        )
        .add_behavior_data(
            Behaviors::BSpawnBall,
            BehaviorDataContainerEnum::SpawnBallData(SpawnBallData {
                last_use: 500,
                cooldown_length: 2000,
            }),
        );
    assert_eq!(go.behaviors_data.len(), 1);
    match go.behaviors_data[0] {
        (k, BehaviorDataContainerEnum::SpawnBallData(d)) => {
            assert_eq!(k, key);
            assert_eq!(d.last_use, 500);
            assert_eq!(d.cooldown_length, 2000);
        }
        _ => panic!("wrong blob stored"),
    }
}

#[test]
fn entity_collision_behavior_data_stores_per_key() {
    let go = GameObject::empty()
        .add_collision_behavior(CollisionBehaviors::CHandleFloorCollision)
        .add_collision_behavior_data(
            CollisionBehaviors::CHandleFloorCollision,
            CollisionDataContainerEnum::Empty,
        )
        .add_collision_behavior_data(
            CollisionBehaviors::CHandleFloorCollision,
            CollisionDataContainerEnum::Empty,
        );
    assert_eq!(go.collision_behaviors.len(), 1);
    assert_eq!(go.collisions_behavior_data.len(), 1);
    assert_eq!(
        go.collisions_behavior_data[0].0,
        CollisionData::CollisionBehaviors(CollisionBehaviors::CHandleFloorCollision)
    );
}

#[test]
fn physics_impulse_scales_by_inverse_mass() {
    let mut phys = PhysicsWorld::new();
    // inverse mass one half: the impulse moves velocity by half its size
    let h = phys.insert_body(BodyKind::Dynamic, FxVec2 { x: 0, y: 0 }, false, 500);
    phys.apply_impulse(h, FxVec2 { x: 10_000, y: -4_000 });
    let v = phys.linvel(h).unwrap();
    assert_eq!(v, FxVec2 { x: 5_000, y: -2_000 });
    phys.set_linvel(h, FxVec2 { x: 7, y: 8 });
    assert_eq!(phys.linvel(h).unwrap(), FxVec2 { x: 7, y: 8 });
    // unknown handles are recoverable no-ops
    assert_eq!(phys.linvel(99), None);
    phys.apply_impulse(99, FxVec2 { x: 1, y: 1 });
    assert_eq!(phys.linvel(h).unwrap(), FxVec2 { x: 7, y: 8 });
}

#[test]
fn physics_commands_log_and_drain() {
    let mut phys = PhysicsWorld::new();
    let h = phys.insert_body(BodyKind::Dynamic, FxVec2 { x: 1, y: 2 }, true, 1000);
    let c = phys.insert_collider_with_parent(ColliderShape::Ball { radius: 1000 }, true, 0, h);
    phys.apply_impulse(h, FxVec2 { x: 3, y: 4 });
    let cmds = phys.take_commands();
    assert_eq!(cmds.len(), 3);
    match cmds[0] {
        PhysCommand::CreateBody {
            handle,
            kind,
            translation,
            lock_rotations,
        } => {
            assert_eq!(handle, h);
            assert_eq!(kind, BodyKind::Dynamic);
            assert_eq!(translation, FxVec2 { x: 1, y: 2 });
            assert!(lock_rotations);
        }
        _ => panic!("first command must create the body"),
    }
    match cmds[1] {
        PhysCommand::CreateCollider { handle, parent, .. } => {
            assert_eq!(handle, c);
            assert_eq!(parent, h);
        }
        _ => panic!("second command must create the collider"),
    }
    match cmds[2] {
        PhysCommand::ApplyImpulse { handle, impulse } => {
            assert_eq!(handle, h);
            assert_eq!(impulse, FxVec2 { x: 3, y: 4 });
        }
        _ => panic!("third command must be the impulse"),
    }
    assert!(phys.take_commands().is_empty());
}

#[test]
fn physics_sync_saturates_into_world_range() {
    let mut phys = PhysicsWorld::new();
    let h = phys.insert_body(BodyKind::Dynamic, FxVec2 { x: 0, y: 0 }, false, 1000);
    phys.sync_body(h, 5_000_000_000, -5_000_000_000, 10, -10, 250);
    let t = phys.translation(h).unwrap();
    assert_eq!(t, FxVec2 { x: 1_000_000_000, y: -1_000_000_000 });
    assert_eq!(phys.linvel(h).unwrap(), FxVec2 { x: 10, y: -10 });
    assert_eq!(phys.rotation_angle(h).unwrap(), 250);
}

#[test]
fn fixed_point_primitives_compute_exactly() {
    assert_eq!(isqrt(0), 0);
    assert_eq!(isqrt(24), 4);
    assert_eq!(isqrt(25), 5);
    assert_eq!(isqrt(25_000_000), 5_000);
    assert_eq!(mul_div(3000, 1000, 5000), 600);
    // rounding is toward zero, as the engine's own division rounds
    assert_eq!(mul_div(-7, 3, 2), -10);
    assert_eq!(rem_trunc(-7, 3), -1);
    assert_eq!(rem_trunc(361_000, 360_000), 1_000);
    assert_eq!(clamp_i64(7, -5, 5), 5);
    assert_eq!(clamp_i64(-7, -5, 5), -5);
    assert_eq!(sat_add(900_000_000, 900_000_000), 1_000_000_000);
}
