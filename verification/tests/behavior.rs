//! The behavior catalog: directional control, spawning, attraction,
//! camera tracking and floor contact.

use simcore::behaviors::{
    apply_behaviors, apply_collision_behaviors, arrow_control, attraction_to, camera_tracking,
    debuggin, handle_floor_behaviors, spawn_ball, ArrowControlData, AttractionToData, BehaviorData,
    BehaviorDataContainerEnum, Behaviors, CameraTrackingData, CollisionBehaviors, SpawnBallData,
};
use simcore::camera::CameraParams;
use simcore::entity::{make_go_rb, GameObject};
use simcore::frame::{LoopContext, ModelName};
use simcore::fxmath::{FxVec2, FxVec3};
use simcore::input::{InputState, Key};
use simcore::physics::{BodyKind, PhysicsWorld};
use simcore::store::GameObjectStore;

fn quiet_ctx(keys: InputState, game_time: i64) -> LoopContext {
    LoopContext {
        keys_held: keys,
        mouse_deltas: (0, 0),
        deltasecs: 16,
        game_time,
        model_map: vec![(ModelName::Ball, 4)],
        floor_set: Vec::new(),
    }
}

fn player_at(phys: &mut PhysicsWorld, x: i64, y: i64) -> GameObject {
    let h = phys.insert_body(BodyKind::Dynamic, FxVec2 { x, y }, true, 1000);
    make_go_rb(
        FxVec3 { x, y, z: 0 },
        FxVec3 { x: 0, y: 0, z: 0 },
        FxVec3 { x: 1000, y: 1000, z: 1000 },
        FxVec3 { x: 0, y: 0, z: 0 },
        FxVec3 { x: 0, y: 0, z: 0 },
        FxVec3 { x: 1000, y: 1000, z: 1000 },
        0,
        h,
    )
    .add_behavior(Behaviors::BArrowControl)
    .add_behavior_data(
        Behaviors::BArrowControl,
        BehaviorDataContainerEnum::ArrowControlData(ArrowControlData {
            accel: 10_000,
            max_speed: 5_000,
        }),
    )
}

#[test]
fn arrow_clamps_horizontal_speed_whatever_accumulated() {
    let mut phys = PhysicsWorld::new();
    let mut go = player_at(&mut phys, 0, 0);
    let h = go.rigid_body_handle.unwrap();
    // an absurd accumulated velocity still comes out within the limit
    phys.sync_body(h, 0, 0, 800_000, 0, 0);
    let ctx = quiet_ctx(InputState::none().with(Key::Right), 0);
    arrow_control(&mut go, &ctx, &mut phys);
    assert_eq!(phys.linvel(h).unwrap().x, 5_000);
    // and symmetrically on the left
    phys.sync_body(h, 0, 0, -800_000, 0, 0);
    let ctx2 = quiet_ctx(InputState::none().with(Key::Left), 0);
    arrow_control(&mut go, &ctx2, &mut phys);
    assert_eq!(phys.linvel(h).unwrap().x, -5_000);
}

#[test]
fn arrow_jump_needs_ground_and_takes_it() {
    let mut phys = PhysicsWorld::new();
    let mut go = player_at(&mut phys, 0, 0);
    let h = go.rigid_body_handle.unwrap();
    assert!(go.grounded);
    let ctx = quiet_ctx(InputState::none().with(Key::Space), 0);
    arrow_control(&mut go, &ctx, &mut phys);
    // double impulse upward, and the ground is gone
    assert_eq!(phys.linvel(h).unwrap().y, 20_000);
    assert!(!go.grounded);
    // airborne, the jump key does nothing vertical
    arrow_control(&mut go, &ctx, &mut phys);
    assert_eq!(phys.linvel(h).unwrap().y, 20_000);
    assert!(!go.grounded);
}

#[test]
fn arrow_damps_only_grounded_and_idle() {
    let mut phys = PhysicsWorld::new();
    let mut go = player_at(&mut phys, 0, 0);
    let h = go.rigid_body_handle.unwrap();
    phys.sync_body(h, 0, 0, 4_000, 0, 0);
    let ctx = quiet_ctx(InputState::none(), 0);
    arrow_control(&mut go, &ctx, &mut phys);
    // grounded and no direction held: five percent bleeds off
    assert_eq!(phys.linvel(h).unwrap().x, 3_800);
    go.grounded = false;
    arrow_control(&mut go, &ctx, &mut phys);
    // airborne, the velocity keeps
    assert_eq!(phys.linvel(h).unwrap().x, 3_800);
}

#[test]
fn spawner_cooldown_gates_to_one_entity() {
    let mut phys = PhysicsWorld::new();
    let mut go = GameObject::empty()
        .add_behavior(Behaviors::BSpawnBall)
        .add_behavior_data(
            Behaviors::BSpawnBall,
            BehaviorDataContainerEnum::SpawnBallData(SpawnBallData {
                last_use: -2_000,
                cooldown_length: 2_000,
            }),
        );
    let held = InputState::none().with(Key::LCtrl);
    // trigger at t = 0: the window has passed, one ball appears
    let (_, adds0) = spawn_ball(&mut go, &quiet_ctx(held, 0), &mut phys);
    assert_eq!(adds0.len(), 1);
    // trigger at t = 1s: within the window, nothing
    let held = InputState::none().with(Key::LCtrl);
    let (_, adds1) = spawn_ball(&mut go, &quiet_ctx(held, 1_000), &mut phys);
    assert_eq!(adds1.len(), 0);
    // trigger at t = 2.1s: the window has passed again
    let held = InputState::none().with(Key::LCtrl);
    let (_, adds2) = spawn_ball(&mut go, &quiet_ctx(held, 2_100), &mut phys);
    assert_eq!(adds2.len(), 1);
}

#[test]
fn spawned_ball_attracts_to_its_spawner() {
    let mut phys = PhysicsWorld::new();
    let mut go = GameObject::empty()
        .add_behavior(Behaviors::BSpawnBall)
        .add_behavior_data(
            Behaviors::BSpawnBall,
            BehaviorDataContainerEnum::SpawnBallData(SpawnBallData {
                last_use: -2_000,
                cooldown_length: 2_000,
            }),
        );
    go.id = 9;
    go.position = FxVec3 { x: 7_000, y: 3_000, z: 0 };
    let held = InputState::none().with(Key::LCtrl);
    let (_, adds) = spawn_ball(&mut go, &quiet_ctx(held, 0), &mut phys);
    let ball = &adds[0];
    let bh = ball.rigid_body_handle.unwrap();
    // the ball's body was created at the spawner's position
    assert_eq!(phys.translation(bh).unwrap(), FxVec2 { x: 7_000, y: 3_000 });
    assert_eq!(ball.behaviors, vec![Behaviors::BAttractionTo]);
    match ball.behaviors_data[0] {
        (BehaviorData::Behaviors(Behaviors::BAttractionTo), BehaviorDataContainerEnum::AttractionToData(d)) => {
            assert_eq!(d.target, 9);
            assert_eq!(d.force, 1_000);
        }
        _ => panic!("the spawned ball must carry attraction state"),
    }
    // no spawn without the model registry entry
    let mut go2 = GameObject::empty().add_behavior_data(
        Behaviors::BSpawnBall,
        BehaviorDataContainerEnum::SpawnBallData(SpawnBallData {
            last_use: -2_000,
            cooldown_length: 2_000,
        }),
    );
    let held = InputState::none().with(Key::LCtrl);
    let mut ctx = quiet_ctx(held, 0);
    ctx.model_map = Vec::new();
    let (_, none_added) = spawn_ball(&mut go2, &ctx, &mut phys);
    assert_eq!(none_added.len(), 0);
}

#[test]
fn attraction_pulls_along_the_unit_vector() {
    let mut phys = PhysicsWorld::new();
    let ha = phys.insert_body(BodyKind::Dynamic, FxVec2 { x: 0, y: 0 }, false, 1000);
    let hb = phys.insert_body(BodyKind::Dynamic, FxVec2 { x: 3_000, y: 4_000 }, false, 1000);
    let mut store = GameObjectStore::new();
    let target_id = store.add(make_go_rb(
        FxVec3 { x: 3_000, y: 4_000, z: 0 },
        FxVec3 { x: 0, y: 0, z: 0 },
        FxVec3 { x: 1000, y: 1000, z: 1000 },
        FxVec3 { x: 0, y: 0, z: 0 },
        FxVec3 { x: 0, y: 0, z: 0 },
        FxVec3 { x: 1000, y: 1000, z: 1000 },
        0,
        hb,
    ));
    let mut chaser = GameObject::empty().add_behavior_data(
        Behaviors::BAttractionTo,
        BehaviorDataContainerEnum::AttractionToData(AttractionToData {
            target: target_id,
            force: 1_000,
        }),
    );
    chaser.rigid_body_handle = Some(ha);
    attraction_to(&chaser, &mut phys, &store);
    // distance five units: the unit vector is (3/5, 4/5), scaled by force
    assert_eq!(phys.linvel(ha).unwrap(), FxVec2 { x: 600, y: 800 });
}

#[test]
fn attraction_with_missing_target_is_noop() {
    let mut phys = PhysicsWorld::new();
    let ha = phys.insert_body(BodyKind::Dynamic, FxVec2 { x: 0, y: 0 }, false, 1000);
    let store = GameObjectStore::new();
    let mut chaser = GameObject::empty().add_behavior_data(
        Behaviors::BAttractionTo,
        BehaviorDataContainerEnum::AttractionToData(AttractionToData {
            target: 42,
            force: 1_000,
        }),
    );
    chaser.rigid_body_handle = Some(ha);
    attraction_to(&chaser, &mut phys, &store);
    // the attractor's velocity is untouched
    assert_eq!(phys.linvel(ha).unwrap(), FxVec2 { x: 0, y: 0 });
    assert!(phys.take_commands().iter().all(|c| !matches!(
        c,
        simcore::physics::PhysCommand::ApplyImpulse { .. }
    )));
}

#[test]
fn camera_tracking_follows_with_offset() {
    let mut camera = CameraParams::new(
        FxVec3 { x: 0, y: 0, z: 0 },
        FxVec3 { x: 0, y: 0, z: 0 },
        FxVec3 { x: 0, y: 0, z: 0 },
    );
    let mut go = GameObject::empty().add_behavior_data(
        Behaviors::BCameraTracking,
        BehaviorDataContainerEnum::CameraTrackingData(CameraTrackingData {
            x_off: 0,
            y_off: 2_000,
            z_off: 20_000,
        }),
    );
    go.position = FxVec3 { x: 5_000, y: 1_000, z: 0 };
    camera_tracking(&go, &mut camera);
    assert_eq!(camera.view_pos, FxVec3 { x: 5_000, y: 3_000, z: 20_000 });
}

#[test]
fn debug_nudge_moves_the_drawable_only() {
    let mut phys = PhysicsWorld::new();
    let mut go = player_at(&mut phys, 0, 0);
    let held = InputState::none().with(Key::L).with(Key::K);
    let mut ctx = quiet_ctx(held, 0);
    ctx.deltasecs = 500;
    debuggin(&mut go, &ctx);
    let d = go.drawable_object.unwrap();
    // half a second at one unit per second: half a unit each axis
    assert_eq!(d.position, FxVec3 { x: 500, y: -500, z: 0 });
    assert_eq!(go.position, FxVec3 { x: 0, y: 0, z: 0 });
}

#[test]
fn floor_contact_grants_grounded_from_above_only() {
    let mut phys = PhysicsWorld::new();
    let hf = phys.insert_body(
        BodyKind::KinematicPositionBased,
        FxVec2 { x: 0, y: 0 },
        false,
        0,
    );
    let mut ctx = quiet_ctx(InputState::none(), 0);
    ctx.floor_set = vec![hf];
    let mut floor_go = GameObject::empty();
    floor_go.rigid_body_handle = Some(hf);

    let mut above = GameObject::empty().add_collision_behavior(CollisionBehaviors::CHandleFloorCollision);
    above.grounded = false;
    above.position = FxVec3 { x: 0, y: 1_000, z: 0 };
    apply_collision_behaviors(&mut above, &floor_go, &ctx, &phys);
    assert!(above.grounded);

    let mut below = GameObject::empty().add_collision_behavior(CollisionBehaviors::CHandleFloorCollision);
    below.grounded = false;
    below.position = FxVec3 { x: 0, y: -1_000, z: 0 };
    apply_collision_behaviors(&mut below, &floor_go, &ctx, &phys);
    assert!(!below.grounded);

    // a body outside the floor set grants nothing
    let mut aside = GameObject::empty().add_collision_behavior(CollisionBehaviors::CHandleFloorCollision);
    aside.grounded = false;
    aside.position = FxVec3 { x: 0, y: 1_000, z: 0 };
    let mut other_ctx = quiet_ctx(InputState::none(), 0);
    other_ctx.floor_set = Vec::new();
    apply_collision_behaviors(&mut aside, &floor_go, &other_ctx, &phys);
    assert!(!aside.grounded);

    // without the tag, contact grants nothing either
    let mut untagged = GameObject::empty();
    untagged.grounded = false;
    untagged.position = FxVec3 { x: 0, y: 1_000, z: 0 };
    handle_floor_behaviors(&mut untagged, &floor_go, &ctx, &phys);
    assert!(untagged.grounded);
    let mut untagged2 = GameObject::empty();
    untagged2.grounded = false;
    untagged2.position = FxVec3 { x: 0, y: 1_000, z: 0 };
    apply_collision_behaviors(&mut untagged2, &floor_go, &ctx, &phys);
    assert!(!untagged2.grounded);
}

#[test]
fn dispatch_runs_every_attached_behavior() {
    let mut phys = PhysicsWorld::new();
    let mut camera = CameraParams::new(
        FxVec3 { x: 0, y: 0, z: 0 },
        FxVec3 { x: 0, y: 0, z: 0 },
        FxVec3 { x: 0, y: 0, z: 0 },
    );
    let store = GameObjectStore::new();
    let mut go = player_at(&mut phys, 0, 5_000)
        .add_behavior(Behaviors::BCameraTracking)
        .add_behavior_data(
            Behaviors::BCameraTracking,
            BehaviorDataContainerEnum::CameraTrackingData(CameraTrackingData {
                x_off: 0,
                y_off: 2_000,
                z_off: 20_000,
            }),
        )
        .add_behavior(Behaviors::BSpawnBall)
        .add_behavior_data(
            Behaviors::BSpawnBall,
            BehaviorDataContainerEnum::SpawnBallData(SpawnBallData {
                last_use: -2_000,
                cooldown_length: 2_000,
            }),
        );
    go.position = FxVec3 { x: 0, y: 5_000, z: 0 };
    let held = InputState::none().with(Key::Space).with(Key::LCtrl);
    let ctx = quiet_ctx(held, 0);
    let (removals, adds) = apply_behaviors(&mut go, &ctx, &mut phys, &mut camera, &store);
    assert!(removals.is_empty());
    // the spawner fired once
    assert_eq!(adds.len(), 1);
    // the jump went through
    assert!(!go.grounded);
    assert_eq!(phys.linvel(go.rigid_body_handle.unwrap()).unwrap().y, 20_000);
    // the camera followed
    assert_eq!(camera.view_pos, FxVec3 { x: 0, y: 7_000, z: 20_000 });
}
