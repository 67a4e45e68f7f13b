//! The collision resolver, the free-look camera controller, the scene
//! builders and whole frames run end to end.

use simcore::behaviors::{
    ArrowControlData, AttractionToData, BehaviorData, BehaviorDataContainerEnum, Behaviors,
    CollisionBehaviors, SpawnBallData,
};
use simcore::camera::{camera_controller, CameraParams, FULL_TURN, PITCH_LIMIT};
use simcore::entity::{make_go_rb, GameObject};
use simcore::frame::{resolve_collisions, run_frame, LoopContext, ModelName};
use simcore::fxmath::{FxVec2, FxVec3};
use simcore::input::{InputState, Key};
use simcore::physics::{BodyKind, ColliderShape, PhysicsWorld};
use simcore::scenes::{make_scene_physics, make_scene_waves};
use simcore::store::GameObjectStore;

fn ctx_with(keys: InputState, game_time: i64, floor_set: Vec<u64>) -> LoopContext {
    LoopContext {
        keys_held: keys,
        mouse_deltas: (0, 0),
        deltasecs: 16,
        game_time,
        model_map: vec![
            (ModelName::ConeRing, 2),
            (ModelName::Cube, 1),
            (ModelName::Ball, 4),
        ],
        floor_set,
    }
}

fn zero_cam() -> CameraParams {
    CameraParams::new(
        FxVec3 { x: 0, y: 0, z: 0 },
        FxVec3 { x: 0, y: 0, z: 0 },
        FxVec3 { x: 0, y: 0, z: 0 },
    )
}

fn bound_entity(phys: &mut PhysicsWorld, x: i64, y: i64) -> (GameObject, u64, u64) {
    let h = phys.insert_body(BodyKind::Dynamic, FxVec2 { x, y }, false, 1000);
    let c = phys.insert_collider_with_parent(ColliderShape::Ball { radius: 1000 }, true, 0, h);
    let go = make_go_rb(
        FxVec3 { x, y, z: 0 },
        FxVec3 { x: 0, y: 0, z: 0 },
        FxVec3 { x: 1000, y: 1000, z: 1000 },
        FxVec3 { x: 0, y: 0, z: 0 },
        FxVec3 { x: 0, y: 0, z: 0 },
        FxVec3 { x: 1000, y: 1000, z: 1000 },
        0,
        h,
    );
    (go, h, c)
}

#[test]
fn resolver_builds_symmetric_adjacency() {
    let mut phys = PhysicsWorld::new();
    let h1 = phys.insert_body(BodyKind::Dynamic, FxVec2 { x: 0, y: 0 }, false, 1000);
    let c1 = phys.insert_collider_with_parent(ColliderShape::Ball { radius: 1000 }, true, 0, h1);
    let h2 = phys.insert_body(BodyKind::Dynamic, FxVec2 { x: 0, y: 0 }, false, 1000);
    let c2 = phys.insert_collider_with_parent(ColliderShape::Ball { radius: 1000 }, true, 0, h2);
    let events = vec![(c1, c2), (c1, 999)];
    let m = resolve_collisions(&phys, &events);
    // the unresolvable second event was dropped; the first stands twice
    assert_eq!(m.len(), 2);
    let e1 = m.iter().find(|e| e.0 == h1).expect("h1 keyed");
    assert_eq!(e1.1, vec![h2]);
    let e2 = m.iter().find(|e| e.0 == h2).expect("h2 keyed");
    assert_eq!(e2.1, vec![h1]);
}

#[test]
fn camera_moves_along_view_axes_and_clamps_look() {
    let mut cam = zero_cam();
    let keys = InputState::none().with(Key::W);
    let look = FxVec3 { x: 1000, y: 0, z: 0 };
    let updated = camera_controller(&keys, (0, 0), &mut cam, 2_000, look);
    assert!(updated);
    // a unit look direction forward at speed two moves two units
    assert_eq!(cam.view_pos, FxVec3 { x: 2_000, y: 0, z: 0 });

    // sprint doubles it
    let keys = InputState::none().with(Key::W).with(Key::LShift);
    camera_controller(&keys, (0, 0), &mut cam, 2_000, look);
    assert_eq!(cam.view_pos.x, 6_000);

    // strafe right moves along the horizontal left vector (-z, 0, x)
    let mut cam2 = zero_cam();
    let keys = InputState::none().with(Key::D);
    camera_controller(&keys, (0, 0), &mut cam2, 1_000, FxVec3 { x: 0, y: 0, z: 1000 });
    assert_eq!(cam2.view_pos, FxVec3 { x: -1_000, y: 0, z: 0 });

    // pitch clamps short of straight down, yaw wraps a full turn
    let mut cam3 = zero_cam();
    cam3.view_rot = FxVec3 { x: 0, y: 0, z: 359_000 };
    let quiet = InputState::none();
    let moved = camera_controller(&quiet, (2_000, 95_000), &mut cam3, 1_000, look);
    assert!(moved);
    assert_eq!(cam3.view_rot.y, -PITCH_LIMIT);
    assert_eq!(cam3.view_rot.z, (359_000 + 2_000) % FULL_TURN);

    // nothing held, no mouse: nothing changes
    let mut cam4 = zero_cam();
    let still = camera_controller(&quiet, (0, 0), &mut cam4, 1_000, look);
    assert!(!still);
    assert_eq!(cam4.view_pos, FxVec3 { x: 0, y: 0, z: 0 });
}

#[test]
fn frame_jump_then_airborne_idle() {
    // entity A: grounded, no behaviors; entity B: directional control
    let mut phys = PhysicsWorld::new();
    let mut store = GameObjectStore::new();
    let mut camera = zero_cam();
    let (a_go, _, _) = bound_entity(&mut phys, -5_000, 0);
    store.add(a_go);
    let (b_go, bh, _) = bound_entity(&mut phys, 0, 0);
    let b_go = b_go
        .add_behavior(Behaviors::BArrowControl)
        .add_behavior_data(
            Behaviors::BArrowControl,
            BehaviorDataContainerEnum::ArrowControlData(ArrowControlData {
                accel: 10_000,
                max_speed: 5_000,
            }),
        );
    let b_id = store.add(b_go);

    // frame one: jump held, B grounded
    let ctx = ctx_with(InputState::none().with(Key::Space), 0, Vec::new());
    let no_events: Vec<(u64, u64)> = Vec::new();
    run_frame(
        &mut store,
        &mut phys,
        &mut camera,
        &ctx,
        &no_events,
        FxVec3 { x: 0, y: 0, z: 0 },
        0,
    );
    assert_eq!(phys.linvel(bh).unwrap().y, 20_000);
    assert!(!store.get(b_id).unwrap().grounded);

    // frame two: no input, B airborne with some drift: no damping applies
    phys.sync_body(bh, 0, 3_000, 3_000, 1_000, 0);
    let ctx2 = ctx_with(InputState::none(), 16, Vec::new());
    run_frame(
        &mut store,
        &mut phys,
        &mut camera,
        &ctx2,
        &no_events,
        FxVec3 { x: 0, y: 0, z: 0 },
        0,
    );
    assert!(!store.get(b_id).unwrap().grounded);
    assert_eq!(phys.linvel(bh).unwrap().x, 3_000);
    // the entity's transform synced from its body
    assert_eq!(store.get(b_id).unwrap().position.y, 3_000);
}

#[test]
fn frame_spawner_cooldown_end_to_end() {
    let mut phys = PhysicsWorld::new();
    let mut store = GameObjectStore::new();
    let mut camera = zero_cam();
    let (s_go, _, _) = bound_entity(&mut phys, 1_000, 2_000);
    let s_go = s_go.add_behavior(Behaviors::BSpawnBall).add_behavior_data(
        Behaviors::BSpawnBall,
        BehaviorDataContainerEnum::SpawnBallData(SpawnBallData {
            last_use: -2_000,
            cooldown_length: 2_000,
        }),
    );
    let s_id = store.add(s_go);
    let no_events: Vec<(u64, u64)> = Vec::new();
    let look = FxVec3 { x: 0, y: 0, z: 0 };

    // trigger at t = 0: one ball appears, targeting the spawner
    let ctx = ctx_with(InputState::none().with(Key::LCtrl), 0, Vec::new());
    run_frame(&mut store, &mut phys, &mut camera, &ctx, &no_events, look, 0);
    assert_eq!(store.objects.len(), 2);
    let ball = store.get(2).expect("the ball got the next identity");
    assert_eq!(ball.behaviors, vec![Behaviors::BAttractionTo]);
    match ball.behaviors_data[0] {
        (
            BehaviorData::Behaviors(Behaviors::BAttractionTo),
            BehaviorDataContainerEnum::AttractionToData(AttractionToData { target, force }),
        ) => {
            assert_eq!(target, s_id);
            assert_eq!(force, 1_000);
        }
        _ => panic!("the ball must attract to its spawner"),
    }

    // trigger again at t = 1s: still cooling down, nothing appears
    let ctx = ctx_with(InputState::none().with(Key::LCtrl), 1_000, Vec::new());
    run_frame(&mut store, &mut phys, &mut camera, &ctx, &no_events, look, 0);
    assert_eq!(store.objects.len(), 2);

    // trigger at t = 2.1s: a second ball appears
    let ctx = ctx_with(InputState::none().with(Key::LCtrl), 2_100, Vec::new());
    run_frame(&mut store, &mut phys, &mut camera, &ctx, &no_events, look, 0);
    assert_eq!(store.objects.len(), 3);
}

#[test]
fn frame_grounded_is_never_sticky() {
    let mut phys = PhysicsWorld::new();
    let mut store = GameObjectStore::new();
    let mut camera = zero_cam();
    // the floor body and its entity
    let fh = phys.insert_body(
        BodyKind::KinematicPositionBased,
        FxVec2 { x: 0, y: -2_000 },
        false,
        0,
    );
    let fc = phys.insert_collider_with_parent(
        ColliderShape::Cuboid { hx: 100_000, hy: 1_000 },
        false,
        500,
        fh,
    );
    let mut floor_go = GameObject::empty();
    floor_go.rigid_body_handle = Some(fh);
    store.add(floor_go);
    // the walker above it
    let (w_go, wh, wc) = bound_entity(&mut phys, 0, 0);
    let w_go = w_go.add_collision_behavior(CollisionBehaviors::CHandleFloorCollision);
    let mut w_go = w_go;
    w_go.grounded = false;
    let w_id = store.add(w_go);

    let look = FxVec3 { x: 0, y: 0, z: 0 };
    // a frame with a contact event grants grounded
    let ctx = ctx_with(InputState::none(), 0, vec![fh]);
    let events = vec![(wc, fc)];
    run_frame(&mut store, &mut phys, &mut camera, &ctx, &events, look, 0);
    assert!(store.get(w_id).unwrap().grounded);

    // grounded cleared again: a frame without events must not re-grant it
    let ctx = ctx_with(InputState::none(), 16, vec![fh]);
    let no_events: Vec<(u64, u64)> = Vec::new();
    // clear by jumping is the directional path; here force the flag off
    // through the store to watch the collision path alone
    for obj in store.objects.iter_mut() {
        if obj.id == w_id {
            obj.grounded = false;
        }
    }
    run_frame(&mut store, &mut phys, &mut camera, &ctx, &no_events, look, 0);
    assert!(!store.get(w_id).unwrap().grounded);
    let _ = wh;
}

#[test]
fn physics_scene_configures_the_player() {
    let mut phys = PhysicsWorld::new();
    let mut store = GameObjectStore::new();
    let mut camera = zero_cam();
    let mut floor_set: Vec<u64> = Vec::new();
    let model_map = vec![
        (ModelName::ConeRing, 2),
        (ModelName::Cube, 1),
        (ModelName::Ball, 4),
    ];
    let player = make_scene_physics(&mut store, &mut phys, &mut camera, &mut floor_set, &model_map);
    let p = store.get(player).expect("the player exists");
    assert!(p.behaviors.contains(&Behaviors::BArrowControl));
    assert!(p.behaviors.contains(&Behaviors::BCameraTracking));
    assert!(p.behaviors.contains(&Behaviors::BSpawnBall));
    assert!(p
        .collision_behaviors
        .contains(&CollisionBehaviors::CHandleFloorCollision));
    let ph = p.rigid_body_handle.expect("the player is bound");
    assert_eq!(phys.translation(ph).unwrap(), FxVec2 { x: 0, y: 5_000 });
    // the floor and the ten obstacles are floor-tagged
    assert_eq!(floor_set.len(), 11);
    // ten obstacles attract to the player
    let chasers = store
        .objects
        .iter()
        .filter(|o| {
            o.behaviors_data.iter().any(|(_, d)| {
                matches!(d, BehaviorDataContainerEnum::AttractionToData(a) if a.target == player)
            })
        })
        .count();
    assert_eq!(chasers, 10);
}

#[test]
fn wave_scene_is_purely_visual() {
    let mut store = GameObjectStore::new();
    let mut camera = zero_cam();
    make_scene_waves(&mut store, &mut camera);
    assert_eq!(store.objects.len(), 401);
    assert!(store
        .objects
        .iter()
        .all(|o| o.rigid_body_handle.is_none() && o.drawable_object.is_some()));
}
