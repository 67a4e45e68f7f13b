//! Scene setup: the entities, bodies, colliders and camera each scene
//! starts from. Shader and texture setup belong to the renderer outside;
//! these builders populate the store, the physics model and the floor set.

use vstd::prelude::*;
use crate::fxmath::{FxVec2, FxVec3, FX_ONE};
use crate::physics::{PhysicsWorld, BodyHandle, BodyKind, ColliderShape};
use crate::entity::{GameObject, GameObjectID, make_go, make_go_rb};
use crate::store::GameObjectStore;
use crate::camera::CameraParams;
use crate::behaviors::{
    Behaviors, BehaviorData, BehaviorDataContainerEnum, CollisionBehaviors, ArrowControlData,
    CameraTrackingData, SpawnBallData, AttractionToData, BALL_INV_MASS, spec_arrow_data,
    spec_tracking_data, spec_spawn_data,
};
use crate::frame::{ModelName, spec_store_phys_consistent};

verus! {

/// Inverse mass the engine derives for the unit-half-extent obstacle cube.
pub const CUBE_INV_MASS: i64 = 250;

/// A kinematic floor slab does not react to impulses.
pub const KINEMATIC_INV_MASS: i64 = 0;

/// Whether the registry resolves `name`.
pub open spec fn spec_scene_model_has(m: Seq<(ModelName, usize)>, name: ModelName) -> bool {
    exists|i: int| 0 <= i < m.len() && (#[trigger] m[i]).0 == name
}

/// Resolve a model name at scene-setup time. Setup requires the names it
/// uses to resolve; an unresolvable name never reaches the frame loop.
fn scene_model_lookup(model_map: &Vec<(ModelName, usize)>, name: ModelName) -> (r: Option<usize>)
    ensures
        r is Some <==> spec_scene_model_has(model_map@, name),
        r matches Some(idx) ==> exists|i: int|
            0 <= i < model_map@.len() && (#[trigger] model_map@[i]) == (name, idx),
{
    let mut i: usize = 0;
    while i < model_map.len()
        invariant
            i <= model_map@.len(),
            forall|j: int| 0 <= j < i ==> (#[trigger] model_map@[j]).0 != name,
        decreases model_map@.len() - i,
    {
        if model_map[i].0 == name {
            proof {
                assert(model_map@[i as int] == (name, model_map@[i as int].1));
            }
            return Some(model_map[i].1);
        }
        i = i + 1;
    }
    None
}

/// The empty scene: only the camera is placed.
pub fn make_scene_empty(camera: &mut CameraParams)
    ensures
        *final(camera) == (CameraParams {
            view_pos: (FxVec3 {
                x: (-20 * FX_ONE) as i64,
                y: (20 * FX_ONE) as i64,
                z: (20 * FX_ONE) as i64,
            }),
            view_rot: (FxVec3 { x: 0, y: (-20 * FX_ONE) as i64, z: (-45 * FX_ONE) as i64 }),
            light_position: (FxVec3 { x: 0, y: (50 * FX_ONE) as i64, z: 0 }),
        }),
        final(camera).wf(),
{
    camera.view_pos = FxVec3 { x: -20 * FX_ONE, y: 20 * FX_ONE, z: 20 * FX_ONE };
    camera.view_rot = FxVec3 { x: 0, y: -20 * FX_ONE, z: -45 * FX_ONE };
    camera.light_position = FxVec3 { x: 0, y: 50 * FX_ONE, z: 0 };
}

/// The wave scene: a marker entity at the origin and a 20-by-20 carpet of
/// unit cubes whose heights alternate in a checker pattern. Purely visual:
/// no entity of this scene carries a body or a behavior.
pub fn make_scene_waves(game_obj_store: &mut GameObjectStore, camera: &mut CameraParams)
    requires
        old(game_obj_store).wf(),
        old(game_obj_store).counter + 401 < usize::MAX,
    ensures
        final(game_obj_store).wf(),
        final(camera).wf(),
        final(game_obj_store).objects@.len() == old(game_obj_store).objects@.len() + 401,
        final(game_obj_store).body_to_id == old(game_obj_store).body_to_id,
        final(game_obj_store).counter == old(game_obj_store).counter + 401,
        old(game_obj_store).issued@.subset_of(final(game_obj_store).issued@),
        // every added entity is visual only
        forall|j: int|
            old(game_obj_store).objects@.len() <= j < final(game_obj_store).objects@.len()
                ==> (#[trigger] final(game_obj_store).objects@[j]).rigid_body_handle is None
                && final(game_obj_store).objects@[j].drawable_object is Some
                && final(game_obj_store).objects@[j].behaviors@.len() == 0,
{
    camera.view_pos = FxVec3 { x: -20 * FX_ONE, y: 10 * FX_ONE, z: 20 * FX_ONE };
    camera.view_rot = FxVec3 { x: 0, y: -20 * FX_ONE, z: -45 * FX_ONE };
    camera.light_position = FxVec3 { x: 0, y: 50 * FX_ONE, z: 0 };

    let ghost pre = *old(game_obj_store);
    game_obj_store.add(
        make_go(
            FxVec3 { x: 0, y: 0, z: 0 },
            FxVec3::zero(),
            FxVec3::one(),
            FxVec3::zero(),
            FxVec3::zero(),
            FxVec3::one(),
            2,
        ),
    );
    let mut gx: i64 = -10;
    while gx < 10
        invariant
            -10 <= gx <= 10,
            pre.counter + 401 < usize::MAX,
            game_obj_store.wf(),
            game_obj_store.objects@.len() == pre.objects@.len() + 1 + (gx + 10) * 20,
            game_obj_store.counter == pre.counter + 1 + (gx + 10) * 20,
            game_obj_store.body_to_id == pre.body_to_id,
            pre.issued@.subset_of(game_obj_store.issued@),
            forall|j: int|
                pre.objects@.len() <= j < game_obj_store.objects@.len() ==> (
                #[trigger] game_obj_store.objects@[j]).rigid_body_handle is None
                    && game_obj_store.objects@[j].drawable_object is Some
                    && game_obj_store.objects@[j].behaviors@.len() == 0,
        decreases 10 - gx,
    {
        let mut gy: i64 = -10;
        while gy < 10
            invariant
                -10 <= gx < 10,
                -10 <= gy <= 10,
                pre.counter + 401 < usize::MAX,
                game_obj_store.wf(),
                game_obj_store.objects@.len() == pre.objects@.len() + 1 + (gx + 10) * 20 + (gy
                    + 10),
                game_obj_store.counter == pre.counter + 1 + (gx + 10) * 20 + (gy + 10),
                game_obj_store.body_to_id == pre.body_to_id,
                pre.issued@.subset_of(game_obj_store.issued@),
                forall|j: int|
                    pre.objects@.len() <= j < game_obj_store.objects@.len() ==> (
                    #[trigger] game_obj_store.objects@[j]).rigid_body_handle is None
                        && game_obj_store.objects@[j].drawable_object is Some
                        && game_obj_store.objects@[j].behaviors@.len() == 0,
            decreases 10 - gy,
        {
            let x_off: i64 = if ((gx % 2) == 0) != ((gy % 2) == 0) {
                1
            } else {
                0
            };
            game_obj_store.add(
                make_go(
                    FxVec3 {
                        x: 2 * gx * FX_ONE,
                        y: -2 * FX_ONE - x_off * FX_ONE,
                        z: 2 * gy * FX_ONE,
                    },
                    FxVec3::zero(),
                    FxVec3::one(),
                    FxVec3::zero(),
                    FxVec3::zero(),
                    FxVec3::one(),
                    1,
                ),
            );
            gy = gy + 1;
        }
        gx = gx + 1;
    }
}

/// The physics scene: a kinematic floor slab, the player — a dynamic,
/// rotation-locked ball with directional control, camera tracking, a timed
/// ball spawner and floor-contact handling — ten dynamic obstacle cubes
/// attracted to the player, and a purely visual background. Returns the
/// player's identity.
#[verifier::rlimit(100)]
pub fn make_scene_physics(
    game_obj_store: &mut GameObjectStore,
    rigid_body_set: &mut PhysicsWorld,
    camera: &mut CameraParams,
    floor_set: &mut Vec<BodyHandle>,
    model_map: &Vec<(ModelName, usize)>,
) -> (player: GameObjectID)
    requires
        old(game_obj_store).wf(),
        old(rigid_body_set).wf(),
        spec_store_phys_consistent(*old(game_obj_store), *old(rigid_body_set)),
        spec_scene_model_has(model_map@, ModelName::ConeRing),
        spec_scene_model_has(model_map@, ModelName::Cube),
        old(game_obj_store).counter + 500 < usize::MAX,
        old(rigid_body_set).next_body_handle + 16 < u64::MAX,
        old(rigid_body_set).next_collider_handle + 16 < u64::MAX,
    ensures
        final(game_obj_store).wf(),
        final(rigid_body_set).wf(),
        final(camera).wf(),
        spec_store_phys_consistent(*final(game_obj_store), *final(rigid_body_set)),
        old(game_obj_store).issued@.subset_of(final(game_obj_store).issued@),
        // the player exists, bound to a dynamic rotation-locked body,
        // configured exactly as the scene states
        final(game_obj_store).spec_has_id(player),
        final(game_obj_store).spec_obj(player).rigid_body_handle is Some,
        spec_arrow_data(final(game_obj_store).spec_obj(player)) == Some(
            (ArrowControlData { accel: (10 * FX_ONE) as i64, max_speed: (5 * FX_ONE) as i64 }),
        ),
        spec_tracking_data(final(game_obj_store).spec_obj(player)) == Some(
            (CameraTrackingData {
                x_off: 0,
                y_off: (2 * FX_ONE) as i64,
                z_off: (20 * FX_ONE) as i64,
            }),
        ),
        spec_spawn_data(final(game_obj_store).spec_obj(player)) == Some(
            (SpawnBallData {
                last_use: (-2 * FX_ONE) as i64,
                cooldown_length: (2 * FX_ONE) as i64,
            }),
        ),
        final(game_obj_store).spec_obj(player).spec_has_behavior(Behaviors::BArrowControl),
        final(game_obj_store).spec_obj(player).spec_has_behavior(Behaviors::BCameraTracking),
        final(game_obj_store).spec_obj(player).spec_has_behavior(Behaviors::BSpawnBall),
        final(game_obj_store).spec_obj(player).spec_has_collision_behavior(
            CollisionBehaviors::CHandleFloorCollision,
        ),
        final(rigid_body_set).has_body(final(game_obj_store).spec_obj(player).rigid_body_handle->0),
        final(rigid_body_set).spec_body(
            final(game_obj_store).spec_obj(player).rigid_body_handle->0,
        ).kind == BodyKind::Dynamic,
        final(rigid_body_set).spec_body(
            final(game_obj_store).spec_obj(player).rigid_body_handle->0,
        ).lock_rotations,
        final(rigid_body_set).spec_body(
            final(game_obj_store).spec_obj(player).rigid_body_handle->0,
        ).translation == (FxVec2 { x: 0, y: (5 * FX_ONE) as i64 }),
        // the floor body is designated floor and kinematic
        final(floor_set)@.len() == old(floor_set)@.len() + 11,
        final(rigid_body_set).has_body(final(floor_set)@[old(floor_set)@.len() as int]),
        final(rigid_body_set).spec_body(final(floor_set)@[old(floor_set)@.len() as int]).kind
            == BodyKind::KinematicPositionBased,
{
    camera.view_pos = FxVec3 { x: 0, y: FX_ONE, z: 5 * FX_ONE };
    camera.view_rot = FxVec3 { x: 0, y: 0, z: -90 * FX_ONE };
    camera.light_position = FxVec3 { x: 100 * FX_ONE, y: 100 * FX_ONE, z: 0 };

    let cone_ring_idx = match scene_model_lookup(model_map, ModelName::ConeRing) {
        Some(idx) => idx,
        None => {
            proof {
                assert(false);
            }
            0
        },
    };
    let cube_idx = match scene_model_lookup(model_map, ModelName::Cube) {
        Some(idx) => idx,
        None => {
            proof {
                assert(false);
            }
            0
        },
    };

    // floor: a kinematic slab with a wide cuboid collider
    let position = FxVec3 { x: 0, y: 0, z: 0 };
    let floor_body_handle = rigid_body_set.insert_body(
        BodyKind::KinematicPositionBased,
        FxVec2 { x: position.x, y: position.y },
        false,
        KINEMATIC_INV_MASS,
    );
    rigid_body_set.insert_collider_with_parent(
        ColliderShape::Cuboid { hx: 100 * FX_ONE, hy: FX_ONE },
        false,
        500,
        floor_body_handle,
    );
    proof {
        assert(!game_obj_store.spec_map_has(floor_body_handle)) by {
            if game_obj_store.spec_map_has(floor_body_handle) {
                let k = game_obj_store.spec_map_index(floor_body_handle);
                assert(old(rigid_body_set).has_body(game_obj_store.body_to_id@[k].0));
            }
        }
    }
    game_obj_store.add(
        make_go_rb(
            position,
            FxVec3::zero(),
            FxVec3 { x: FX_ONE, y: FX_ONE, z: FX_ONE },
            FxVec3 { x: 0, y: 0, z: 0 },
            FxVec3::zero(),
            FxVec3 { x: 100 * FX_ONE, y: FX_ONE, z: 100 * FX_ONE },
            1,
            floor_body_handle,
        ),
    );
    floor_set.push(floor_body_handle);

    // player: a dynamic, rotation-locked ball that emits collision events
    let player_position = FxVec3 { x: 0, y: 5 * FX_ONE, z: 0 };
    let ball_body_handle2 = rigid_body_set.insert_body(
        BodyKind::Dynamic,
        FxVec2 { x: player_position.x, y: player_position.y },
        true,
        BALL_INV_MASS,
    );
    rigid_body_set.insert_collider_with_parent(
        ColliderShape::Ball { radius: FX_ONE },
        true,
        0,
        ball_body_handle2,
    );
    let arrow_key = BehaviorData::Behaviors(Behaviors::BArrowControl);
    let track_key = BehaviorData::Behaviors(Behaviors::BCameraTracking);
    let spawn_key = BehaviorData::Behaviors(Behaviors::BSpawnBall);
    let p1 = make_go_rb(
        FxVec3::zero(),
        FxVec3::zero(),
        FxVec3::one(),
        FxVec3::zero(),
        FxVec3::zero(),
        FxVec3::one(),
        cone_ring_idx,
        ball_body_handle2,
    ).add_behavior(Behaviors::BArrowControl);
    let p2 = p1.add_behavior_data(
        Behaviors::BArrowControl,
        BehaviorDataContainerEnum::ArrowControlData(
            ArrowControlData { accel: 10 * FX_ONE, max_speed: 5 * FX_ONE },
        ),
    );
    proof {
        assert(p2.wf());
        assert(spec_arrow_data(p2) == Some(
            (ArrowControlData { accel: (10 * FX_ONE) as i64, max_speed: (5 * FX_ONE) as i64 }),
        ));
        assert(p2.spec_has_behavior(Behaviors::BArrowControl));
    }
    let p3 = p2.add_behavior(Behaviors::BCameraTracking);
    let p4 = p3.add_behavior_data(
        Behaviors::BCameraTracking,
        BehaviorDataContainerEnum::CameraTrackingData(
            CameraTrackingData { x_off: 0, y_off: 2 * FX_ONE, z_off: 20 * FX_ONE },
        ),
    );
    proof {
        assert(p3.behaviors_data == p2.behaviors_data);
        assert(p3.spec_has_data(arrow_key) && p3.spec_data(arrow_key) == p2.spec_data(arrow_key));
        assert(p4.spec_data(arrow_key) == p3.spec_data(arrow_key));
        assert(spec_arrow_data(p4) == spec_arrow_data(p2));
        assert(spec_tracking_data(p4) == Some(
            (CameraTrackingData {
                x_off: 0,
                y_off: (2 * FX_ONE) as i64,
                z_off: (20 * FX_ONE) as i64,
            }),
        ));
        assert(p4.spec_has_behavior(Behaviors::BArrowControl));
        assert(p4.spec_has_behavior(Behaviors::BCameraTracking));
    }
    let p5 = p4.add_behavior(Behaviors::BSpawnBall);
    let player_go = p5.add_behavior_data(
        Behaviors::BSpawnBall,
        BehaviorDataContainerEnum::SpawnBallData(
            SpawnBallData { last_use: -2 * FX_ONE, cooldown_length: 2 * FX_ONE },
        ),
    ).add_collision_behavior(CollisionBehaviors::CHandleFloorCollision);
    let ghost player_pre = player_go;
    proof {
        assert(p5.spec_has_behavior(Behaviors::BArrowControl));
        assert(p5.spec_has_behavior(Behaviors::BCameraTracking));
        assert(p5.spec_has_behavior(Behaviors::BSpawnBall));
        assert(player_go.spec_has_behavior(Behaviors::BArrowControl));
        assert(player_go.spec_has_behavior(Behaviors::BCameraTracking));
        assert(player_go.spec_has_behavior(Behaviors::BSpawnBall));
        assert(player_go.spec_has_collision_behavior(CollisionBehaviors::CHandleFloorCollision));
        assert(p5.behaviors_data == p4.behaviors_data);
        assert(p5.spec_has_data(arrow_key) && p5.spec_data(arrow_key) == p4.spec_data(arrow_key));
        assert(p5.spec_has_data(track_key) && p5.spec_data(track_key) == p4.spec_data(track_key));
        assert(player_go.spec_data(arrow_key) == p5.spec_data(arrow_key));
        assert(player_go.spec_data(track_key) == p5.spec_data(track_key));
        assert(spec_arrow_data(player_go) == Some(
            (ArrowControlData { accel: (10 * FX_ONE) as i64, max_speed: (5 * FX_ONE) as i64 }),
        ));
        assert(spec_tracking_data(player_go) == Some(
            (CameraTrackingData {
                x_off: 0,
                y_off: (2 * FX_ONE) as i64,
                z_off: (20 * FX_ONE) as i64,
            }),
        ));
        assert(spec_spawn_data(player_go) == Some(
            (SpawnBallData {
                last_use: (-2 * FX_ONE) as i64,
                cooldown_length: (2 * FX_ONE) as i64,
            }),
        ));
    }
    proof {
        assert(!game_obj_store.spec_map_has(ball_body_handle2)) by {
            if game_obj_store.spec_map_has(ball_body_handle2) {
                let k = game_obj_store.spec_map_index(ball_body_handle2);
                if k < old(game_obj_store).body_to_id@.len() {
                    assert(old(rigid_body_set).has_body(game_obj_store.body_to_id@[k].0));
                }
            }
        }
    }
    let id2 = game_obj_store.add(player_go);
    let ghost store_p = *game_obj_store;
    let ghost phys_p = *rigid_body_set;
    proof {
        store_p.lemma_id_index_is(store_p.objects@.len() - 1);
        phys_p.lemma_body_index_is(phys_p.bodies@.len() - 1);
        assert(phys_p.bodies@[phys_p.bodies@.len() - 2].handle == floor_body_handle);
        phys_p.lemma_body_index_is(phys_p.bodies@.len() - 2);
        assert(phys_p.has_body(floor_body_handle));
        assert forall|k: int| 0 <= k < game_obj_store.body_to_id@.len()
            implies rigid_body_set.has_body(
            (#[trigger] game_obj_store.body_to_id@[k]).0,
        ) by {
            if k < old(game_obj_store).body_to_id@.len() {
                let h2 = game_obj_store.body_to_id@[k].0;
                assert(old(rigid_body_set).has_body(h2));
                let j2 = choose|j2: int|
                    0 <= j2 < old(rigid_body_set).bodies@.len() && old(
                        rigid_body_set,
                    ).bodies@[j2].handle == h2;
                assert(rigid_body_set.bodies@[j2].handle == h2);
            } else {
                assert(rigid_body_set.bodies@[phys_p.bodies@.len() - 2].handle
                    == floor_body_handle);
                assert(rigid_body_set.bodies@[phys_p.bodies@.len() - 1].handle
                    == ball_body_handle2);
            }
        };
    }

    // obstacles: ten dynamic cubes, attracted to the player, floor-tagged
    let mut oi: u64 = 0;
    while oi < 10
        invariant
            oi <= 10,
            game_obj_store.wf(),
            rigid_body_set.wf(),
            spec_store_phys_consistent(*game_obj_store, *rigid_body_set),
            store_p.issued@.subset_of(game_obj_store.issued@),
            game_obj_store.counter == store_p.counter + oi,
            store_p.counter + 490 < usize::MAX,
            rigid_body_set.next_body_handle == phys_p.next_body_handle + oi,
            rigid_body_set.next_collider_handle == phys_p.next_collider_handle + oi,
            phys_p.next_body_handle + 11 < u64::MAX,
            phys_p.next_collider_handle + 11 < u64::MAX,
            rigid_body_set.bodies@.len() >= phys_p.bodies@.len(),
            forall|j: int|
                0 <= j < phys_p.bodies@.len() ==> (#[trigger] rigid_body_set.bodies@[j])
                    == phys_p.bodies@[j],
            game_obj_store.objects@.len() >= store_p.objects@.len(),
            forall|j: int|
                0 <= j < store_p.objects@.len() ==> (#[trigger] game_obj_store.objects@[j])
                    == store_p.objects@[j],
            floor_set@.len() == old(floor_set)@.len() + 1 + oi,
            floor_set@[old(floor_set)@.len() as int] == floor_body_handle,
            phys_p.has_body(floor_body_handle),
            phys_p.spec_body(floor_body_handle).kind == BodyKind::KinematicPositionBased,
        decreases 10 - oi,
    {
        let ghost store_h = *game_obj_store;
        let ghost phys_h = *rigid_body_set;
        let obstacle_y = (oi as i64 + 1) * 2 * FX_ONE;
        let cube_body_handle = rigid_body_set.insert_body(
            BodyKind::Dynamic,
            FxVec2 { x: 5 * FX_ONE, y: obstacle_y },
            false,
            CUBE_INV_MASS,
        );
        rigid_body_set.insert_collider_with_parent(
            ColliderShape::Cuboid { hx: FX_ONE, hy: FX_ONE },
            true,
            500,
            cube_body_handle,
        );
        proof {
            assert(!game_obj_store.spec_map_has(cube_body_handle)) by {
                if game_obj_store.spec_map_has(cube_body_handle) {
                    let k = game_obj_store.spec_map_index(cube_body_handle);
                    assert(rigid_body_set.has_body(game_obj_store.body_to_id@[k].0));
                }
            }
        }
        game_obj_store.add(
            make_go_rb(
                FxVec3::zero(),
                FxVec3::zero(),
                FxVec3::one(),
                FxVec3::zero(),
                FxVec3::zero(),
                FxVec3::one(),
                cube_idx,
                cube_body_handle,
            ).add_behavior(Behaviors::BAttractionTo).add_behavior_data(
                Behaviors::BAttractionTo,
                BehaviorDataContainerEnum::AttractionToData(
                    AttractionToData { target: id2, force: FX_ONE / 4 },
                ),
            ),
        );
        floor_set.push(cube_body_handle);
        proof {
            assert forall|k: int| 0 <= k < game_obj_store.body_to_id@.len()
                implies rigid_body_set.has_body(
                (#[trigger] game_obj_store.body_to_id@[k]).0,
            ) by {
                if k < store_h.body_to_id@.len() {
                    let h2 = game_obj_store.body_to_id@[k].0;
                    assert(store_h.body_to_id@[k].0 == h2);
                    assert(phys_h.has_body(h2));
                    let j2 = choose|j2: int|
                        0 <= j2 < phys_h.bodies@.len() && phys_h.bodies@[j2].handle == h2;
                    assert(rigid_body_set.bodies@[j2].handle == h2);
                } else {
                    assert(rigid_body_set.bodies@[rigid_body_set.bodies@.len() - 1].handle
                        == cube_body_handle);
                }
            };
        }
        oi = oi + 1;
    }

    let ghost phys_ob = *rigid_body_set;
    // background: rows of purely visual markers, sparser with depth
    let mut bz: i64 = 0;
    while bz < 4
        invariant
            0 <= bz <= 4,
            game_obj_store.wf(),
            rigid_body_set.wf(),
            spec_store_phys_consistent(*game_obj_store, *rigid_body_set),
            store_p.issued@.subset_of(game_obj_store.issued@),
            game_obj_store.counter <= store_p.counter + 10 + bz * 100,
            game_obj_store.counter + 40 + (4 - bz) * 100 < usize::MAX,
            *rigid_body_set == phys_ob,
            game_obj_store.objects@.len() >= store_p.objects@.len(),
            forall|j: int|
                0 <= j < store_p.objects@.len() ==> (#[trigger] game_obj_store.objects@[j])
                    == store_p.objects@[j],
            floor_set@.len() == old(floor_set)@.len() + 11,
            floor_set@[old(floor_set)@.len() as int] == floor_body_handle,
        decreases 4 - bz,
    {
        let mut bi: i64 = -50;
        while bi < 50
            invariant
                0 <= bz < 4,
                -50 <= bi <= 50,
                game_obj_store.wf(),
                rigid_body_set.wf(),
                spec_store_phys_consistent(*game_obj_store, *rigid_body_set),
                store_p.issued@.subset_of(game_obj_store.issued@),
                game_obj_store.counter <= store_p.counter + 10 + bz * 100 + (bi + 50),
                game_obj_store.counter + 40 + (4 - bz) * 100 - (bi + 50) < usize::MAX,
                *rigid_body_set == phys_ob,
                game_obj_store.objects@.len() >= store_p.objects@.len(),
                forall|j: int|
                    0 <= j < store_p.objects@.len() ==> (#[trigger] game_obj_store.objects@[j])
                        == store_p.objects@[j],
                floor_set@.len() == old(floor_set)@.len() + 11,
                floor_set@[old(floor_set)@.len() as int] == floor_body_handle,
            decreases 50 - bi,
        {
            let v = bi * 2 + 2 * bz;
            let zcoord: i64 = (0 - bz - 1) * 2 * FX_ONE;
            if crate::fxmath::rem_trunc(v, bz + 1) == 0 {
                game_obj_store.add(
                    make_go(
                        FxVec3 { x: v * FX_ONE, y: FX_ONE, z: zcoord },
                        FxVec3::zero(),
                        FxVec3::one(),
                        FxVec3::zero(),
                        FxVec3::zero(),
                        FxVec3 {
                            x: (bz * 2 + 1) * FX_ONE,
                            y: (bz * 2 + 1) * FX_ONE,
                            z: (bz * 2 + 1) * FX_ONE,
                        },
                        0,
                    ),
                );
            }
            bi = bi + 1;
        }
        bz = bz + 1;
    }
    proof {
        let pidx = store_p.objects@.len() - 1;
        assert(game_obj_store.objects@[pidx] == store_p.objects@[pidx]);
        assert(game_obj_store.objects@[pidx].id == id2);
        game_obj_store.lemma_id_index_is(pidx);
        assert(game_obj_store.spec_obj(id2) == store_p.objects@[pidx]);
        assert(store_p.objects@[pidx] == (GameObject { id: id2, ..player_pre }));
        assert(store_p.objects@[pidx].behaviors_data == player_pre.behaviors_data);
        assert(spec_arrow_data(store_p.objects@[pidx]) == spec_arrow_data(player_pre));
        assert(spec_tracking_data(store_p.objects@[pidx]) == spec_tracking_data(player_pre));
        assert(spec_spawn_data(store_p.objects@[pidx]) == spec_spawn_data(player_pre));
        assert(store_p.objects@[pidx].behaviors == player_pre.behaviors);
        assert(player_pre.spec_has_behavior(Behaviors::BArrowControl));
        let wa = choose|w: int|
            0 <= w < player_pre.behaviors@.len() && player_pre.behaviors@[w]
                == Behaviors::BArrowControl;
        assert(store_p.objects@[pidx].behaviors@[wa] == Behaviors::BArrowControl);
        assert(player_pre.spec_has_behavior(Behaviors::BCameraTracking));
        let wc = choose|w: int|
            0 <= w < player_pre.behaviors@.len() && player_pre.behaviors@[w]
                == Behaviors::BCameraTracking;
        assert(store_p.objects@[pidx].behaviors@[wc] == Behaviors::BCameraTracking);
        assert(player_pre.spec_has_behavior(Behaviors::BSpawnBall));
        let ws = choose|w: int|
            0 <= w < player_pre.behaviors@.len() && player_pre.behaviors@[w]
                == Behaviors::BSpawnBall;
        assert(store_p.objects@[pidx].behaviors@[ws] == Behaviors::BSpawnBall);
        assert(player_pre.spec_has_collision_behavior(CollisionBehaviors::CHandleFloorCollision));
        let wf2 = choose|w: int|
            0 <= w < player_pre.collision_behaviors@.len() && player_pre.collision_behaviors@[w]
                == CollisionBehaviors::CHandleFloorCollision;
        assert(store_p.objects@[pidx].collision_behaviors@[wf2]
            == CollisionBehaviors::CHandleFloorCollision);
        // the player's body survives the later insertions at its index
        let pbi = phys_p.bodies@.len() - 1;
        assert(phys_p.bodies@[pbi].handle == ball_body_handle2);
        assert(rigid_body_set.bodies@[pbi] == phys_p.bodies@[pbi]);
        rigid_body_set.lemma_body_index_is(pbi);
        // so does the floor body
        let fbi = phys_p.bodies@.len() - 2;
        assert(phys_p.bodies@[fbi].handle == floor_body_handle);
        assert(rigid_body_set.bodies@[fbi] == phys_p.bodies@[fbi]);
        rigid_body_set.lemma_body_index_is(fbi);
    }
    id2
}

} // verus!
