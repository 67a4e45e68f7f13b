//! The behavior catalog: tags, per-tag private state, and the per-frame
//! update functions, together with the dispatchers that run every tag
//! attached to an entity.
//!
//! Each update reads the frame context and may mutate its own entity, the
//! physics model and the camera; structural changes are only requested —
//! returned as a list of identities to remove and a list of new entities —
//! never applied here.

use vstd::prelude::*;
use crate::fxmath::{
    fx_in_bounds, fx_time_in_bounds, fx2_in_bounds, spec_abs, spec_sat, spec_clamp, spec_fx_mul,
    spec_mul_div, spec_isqrt, sat_add, fx_mul, mul_div, clamp_i64, isqrt, lemma_unit_scale_bound,
    FxVec2, FxVec3, FX_ONE, FX_BOUND, FX_TIME_BOUND,
};
use crate::physics::{
    PhysicsWorld, BodyHandle, ColliderHandle, BodyKind, ColliderShape, ColliderState, PhysCommand,
    RigidBodyState,
};
use crate::input::{InputState, Key};
use crate::entity::{GameObject, GameObjectID, DrawableObject, make_go_rb};
use crate::camera::CameraParams;
use crate::frame::{LoopContext, ModelName};
use crate::store::GameObjectStore;

verus! {

/// The per-frame behavior tags an entity may carry.
#[derive(PartialEq, Eq, Structural, Hash, Copy, Clone, Debug)]
pub enum Behaviors {
    BArrowControl,
    BDebuggin,
    BCameraTracking,
    BSpawnBall,
    BAttractionTo,
}

/// Key type of the behavior-data mapping.
#[derive(PartialEq, Eq, Structural, Hash, Copy, Clone, Debug)]
pub enum BehaviorData {
    Behaviors(Behaviors),
}

/// Marker for types that may serve as a behavior's private state.
pub trait BehaviorDataContainer {

}

/// Private state of the directional-control behavior.
#[derive(PartialEq, Eq, Structural, Copy, Clone, Debug)]
pub struct ArrowControlData {
    /// Impulse magnitude per frame of held input, fixed-point.
    pub accel: i64,
    /// Symmetric horizontal speed limit, fixed-point.
    pub max_speed: i64,
}

impl BehaviorDataContainer for ArrowControlData {

}

impl ArrowControlData {
    /// Both parameters are stored world quantities.
    pub open spec fn wf(self) -> bool {
        fx_in_bounds(self.accel as int) && fx_in_bounds(self.max_speed as int)
    }
}

/// Private state of the camera-tracking behavior: the fixed per-axis offset
/// added to the entity's position.
#[derive(PartialEq, Eq, Structural, Copy, Clone, Debug)]
pub struct CameraTrackingData {
    pub x_off: i64,
    pub y_off: i64,
    pub z_off: i64,
}

impl BehaviorDataContainer for CameraTrackingData {

}

impl CameraTrackingData {
    /// All offsets are stored world quantities.
    pub open spec fn wf(self) -> bool {
        fx_in_bounds(self.x_off as int) && fx_in_bounds(self.y_off as int)
            && fx_in_bounds(self.z_off as int)
    }
}

/// Private state of the timed-spawner behavior.
#[derive(PartialEq, Eq, Structural, Copy, Clone, Debug)]
pub struct SpawnBallData {
    /// Game time of the last successful spawn, fixed-point seconds.
    pub last_use: i64,
    /// Minimum time between spawns, fixed-point seconds.
    pub cooldown_length: i64,
}

impl BehaviorDataContainer for SpawnBallData {

}

impl SpawnBallData {
    /// The cooldown is non-negative and both values are in the time range.
    pub open spec fn wf(self) -> bool {
        &&& 0 <= self.cooldown_length <= FX_TIME_BOUND
        &&& fx_time_in_bounds(self.last_use as int)
    }
}

/// Private state of the attraction behavior.
#[derive(PartialEq, Eq, Structural, Copy, Clone, Debug)]
pub struct AttractionToData {
    /// Identity of the entity pulled toward; it may no longer exist.
    pub target: GameObjectID,
    /// Magnitude of the impulse applied each frame, fixed-point.
    pub force: i64,
}

impl BehaviorDataContainer for AttractionToData {

}

impl AttractionToData {
    /// The force is a stored world quantity.
    pub open spec fn wf(self) -> bool {
        fx_in_bounds(self.force as int)
    }
}

/// The private state attached to one behavior tag.
#[derive(PartialEq, Eq, Structural, Copy, Clone, Debug)]
pub enum BehaviorDataContainerEnum {
    ArrowControlData(ArrowControlData),
    CameraTrackingData(CameraTrackingData),
    SpawnBallData(SpawnBallData),
    AttractionToData(AttractionToData),
}

impl BehaviorDataContainerEnum {
    /// The carried state is well formed.
    pub open spec fn wf(self) -> bool {
        match self {
            BehaviorDataContainerEnum::ArrowControlData(d) => d.wf(),
            BehaviorDataContainerEnum::CameraTrackingData(d) => d.wf(),
            BehaviorDataContainerEnum::SpawnBallData(d) => d.wf(),
            BehaviorDataContainerEnum::AttractionToData(d) => d.wf(),
        }
    }
}

/// The collision-triggered behavior tags an entity may carry.
#[derive(PartialEq, Eq, Structural, Hash, Copy, Clone, Debug)]
pub enum CollisionBehaviors {
    CHandleFloorCollision,
}

/// Key type of the collision-behavior-data mapping.
#[derive(PartialEq, Eq, Structural, Hash, Copy, Clone, Debug)]
pub enum CollisionData {
    CollisionBehaviors(CollisionBehaviors),
}

/// Marker for types that may serve as a collision behavior's private state.
pub trait CollisionDataContainer {

}

/// The private state attached to one collision-behavior tag. No collision
/// behavior of the catalog carries state yet.
#[derive(PartialEq, Eq, Structural, Copy, Clone, Debug)]
pub enum CollisionDataContainerEnum {
    Empty,
}

impl CollisionDataContainer for CollisionDataContainerEnum {

}

/// Index of the data entry stored under `key`, if any.
fn find_data_index(go: &GameObject, key: BehaviorData) -> (r: Option<usize>)
    requires
        go.wf(),
    ensures
        (match r {
            Some(i) => i < go.behaviors_data@.len() && go.behaviors_data@[i as int].0 == key
                && go.spec_data_index(key) == i && go.spec_has_data(key),
            None => !go.spec_has_data(key),
        }),
{
    let mut i: usize = 0;
    while i < go.behaviors_data.len()
        invariant
            go.wf(),
            i <= go.behaviors_data@.len(),
            forall|j: int| 0 <= j < i ==> (#[trigger] go.behaviors_data@[j]).0 != key,
        decreases go.behaviors_data@.len() - i,
    {
        if go.behaviors_data[i].0 == key {
            proof {
                go.lemma_data_index_is(i as int);
            }
            return Some(i);
        }
        i = i + 1;
    }
    None
}

/// The directional-control state attached to `go`, if the tag's slot holds
/// one.
pub open spec fn spec_arrow_data(go: GameObject) -> Option<ArrowControlData> {
    let key = BehaviorData::Behaviors(Behaviors::BArrowControl);
    if go.spec_has_data(key) {
        match go.spec_data(key) {
            BehaviorDataContainerEnum::ArrowControlData(d) => Some(d),
            _ => None,
        }
    } else {
        None
    }
}

/// The camera-tracking state attached to `go`, if the tag's slot holds one.
pub open spec fn spec_tracking_data(go: GameObject) -> Option<CameraTrackingData> {
    let key = BehaviorData::Behaviors(Behaviors::BCameraTracking);
    if go.spec_has_data(key) {
        match go.spec_data(key) {
            BehaviorDataContainerEnum::CameraTrackingData(d) => Some(d),
            _ => None,
        }
    } else {
        None
    }
}

/// The timed-spawner state attached to `go`, if the tag's slot holds one.
pub open spec fn spec_spawn_data(go: GameObject) -> Option<SpawnBallData> {
    let key = BehaviorData::Behaviors(Behaviors::BSpawnBall);
    if go.spec_has_data(key) {
        match go.spec_data(key) {
            BehaviorDataContainerEnum::SpawnBallData(d) => Some(d),
            _ => None,
        }
    } else {
        None
    }
}

/// The attraction state attached to `go`, if the tag's slot holds one.
pub open spec fn spec_attraction_data(go: GameObject) -> Option<AttractionToData> {
    let key = BehaviorData::Behaviors(Behaviors::BAttractionTo);
    if go.spec_has_data(key) {
        match go.spec_data(key) {
            BehaviorDataContainerEnum::AttractionToData(d) => Some(d),
            _ => None,
        }
    } else {
        None
    }
}

/// The debug nudge along x: held `L` right, `J` left, one unit per second.
pub open spec fn spec_debug_rx(keys: InputState) -> int {
    (if keys.spec_holds(Key::L) { FX_ONE as int } else { 0 }) + (if keys.spec_holds(Key::J) {
        -(FX_ONE as int)
    } else {
        0
    })
}

/// The debug nudge along y: held `I` up, `K` down, one unit per second.
pub open spec fn spec_debug_ry(keys: InputState) -> int {
    (if keys.spec_holds(Key::I) { FX_ONE as int } else { 0 }) + (if keys.spec_holds(Key::K) {
        -(FX_ONE as int)
    } else {
        0
    })
}

/// Impulse a held direction key contributes horizontally: `accel` to the
/// right, `-accel` to the left; both held cancel out.
pub open spec fn spec_arrow_impulse_x(d: ArrowControlData, keys: InputState) -> int {
    (if keys.spec_holds(Key::Right) { d.accel as int } else { 0 }) + (if keys.spec_holds(
        Key::Left,
    ) {
        -(d.accel as int)
    } else {
        0
    })
}

/// A jump happens exactly when the jump key is held while grounded.
pub open spec fn spec_arrow_jumped(keys: InputState, grounded: bool) -> bool {
    grounded && keys.spec_holds(Key::Space)
}

/// The upward jump impulse: twice the acceleration, only on a jump.
pub open spec fn spec_arrow_impulse_y(d: ArrowControlData, keys: InputState, grounded: bool) -> int {
    if spec_arrow_jumped(keys, grounded) { 2 * (d.accel as int) } else { 0 }
}

/// Whether a horizontal direction key is held.
pub open spec fn spec_arrow_moved(keys: InputState) -> bool {
    keys.spec_holds(Key::Right) || keys.spec_holds(Key::Left)
}

/// The symmetric speed limit: `max(min(v, max_speed), -max_speed)`.
pub open spec fn spec_speed_limit(v: int, max_speed: int) -> int {
    let lo = if v < max_speed { v } else { max_speed };
    if lo > -max_speed { lo } else { -max_speed }
}

/// The impulse directional control applies this frame.
pub open spec fn spec_arrow_impulse(d: ArrowControlData, keys: InputState, grounded: bool) -> FxVec2 {
    FxVec2 {
        x: spec_arrow_impulse_x(d, keys) as i64,
        y: spec_arrow_impulse_y(d, keys, grounded) as i64,
    }
}

/// The velocity directional control leaves the body with: the impulse is
/// applied, the horizontal axis is damped while grounded with no direction
/// held, and then clamped to the speed limit.
pub open spec fn spec_arrow_final_vel(
    phys: PhysicsWorld,
    h: BodyHandle,
    d: ArrowControlData,
    keys: InputState,
    grounded: bool,
) -> FxVec2
    recommends phys.has_body(h),
{
    let v1 = phys.spec_vel_after_impulse(h, spec_arrow_impulse(d, keys, grounded));
    let g1 = grounded && !keys.spec_holds(Key::Space);
    let vx2 = if g1 && !spec_arrow_moved(keys) {
        spec_fx_mul(v1.x as int, 950)
    } else {
        v1.x as int
    };
    FxVec2 { x: spec_speed_limit(vx2, d.max_speed as int) as i64, y: v1.y }
}

/// What directional control does when the entity is bound and configured:
/// `grounded` survives exactly when no jump was taken, and the body ends at
/// the damped, speed-limited velocity with both calls logged. A body the
/// model does not know leaves the physics state untouched.
pub open spec fn spec_arrow_active_post(
    go0: GameObject,
    phys0: PhysicsWorld,
    keys: InputState,
    h: BodyHandle,
    d: ArrowControlData,
    go1: GameObject,
    phys1: PhysicsWorld,
) -> bool {
    let imp = spec_arrow_impulse(d, keys, go0.grounded);
    let vf = spec_arrow_final_vel(phys0, h, d, keys, go0.grounded);
    &&& go1 == (GameObject {
        grounded: go0.grounded && !keys.spec_holds(Key::Space),
        ..go0
    })
    &&& if phys0.has_body(h) {
        phys1.bodies@ == phys0.bodies@.update(
            phys0.body_index(h),
            (RigidBodyState { linvel: vf, ..phys0.spec_body(h) }),
        ) && phys1.commands@ == phys0.commands@.push(
            (PhysCommand::ApplyImpulse { handle: h, impulse: imp }),
        ).push((PhysCommand::SetLinvel { handle: h, linvel: vf }))
    } else {
        phys1.bodies == phys0.bodies && phys1.commands == phys0.commands
    }
}

/// Directional control: applies a horizontal impulse for held direction
/// keys; on the jump key, only while grounded, applies a double upward
/// impulse and clears `grounded`; damps the horizontal axis while grounded
/// with no direction held; and clamps horizontal speed symmetrically to the
/// configured maximum, whatever impulses accumulated.
pub fn arrow_control(
    go: &mut GameObject,
    loop_ctx: &LoopContext,
    rigid_body_set: &mut PhysicsWorld,
) -> (r: (Vec<GameObjectID>, Vec<GameObject>))
    requires
        old(go).wf(),
        old(rigid_body_set).wf(),
        loop_ctx.wf(),
    ensures
        r.0@.len() == 0,
        r.1@.len() == 0,
        final(go).wf(),
        final(rigid_body_set).wf(),
        final(rigid_body_set).colliders == old(rigid_body_set).colliders,
        final(rigid_body_set).next_body_handle == old(rigid_body_set).next_body_handle,
        final(rigid_body_set).next_collider_handle == old(rigid_body_set).next_collider_handle,
        (match (old(go).rigid_body_handle, spec_arrow_data(*old(go))) {
            (Some(h), Some(d)) => spec_arrow_active_post(
                *old(go),
                *old(rigid_body_set),
                loop_ctx.keys_held,
                h,
                d,
                *final(go),
                *final(rigid_body_set),
            ),
            _ => *final(go) == *old(go) && *final(rigid_body_set) == *old(rigid_body_set),
        }),
        // the speed limit holds afterwards, for any accumulated impulses
        (match (old(go).rigid_body_handle, spec_arrow_data(*old(go))) {
            (Some(h), Some(d)) => old(rigid_body_set).has_body(h) && d.max_speed >= 0
                ==> -d.max_speed <= final(rigid_body_set).spec_body(h).linvel.x <= d.max_speed,
            _ => true,
        }),
        // a jump is taken only from the ground, and takes the ground away
        (match (old(go).rigid_body_handle, spec_arrow_data(*old(go))) {
            (Some(h), Some(d)) => (spec_arrow_jumped(loop_ctx.keys_held, old(go).grounded)
                ==> !final(go).grounded) && (old(rigid_body_set).has_body(h) && !old(go).grounded
                ==> final(rigid_body_set).spec_body(h).linvel.y == old(
                    rigid_body_set,
                ).spec_body(h).linvel.y),
            _ => true,
        }),
{
    let ghost pre_go = *old(go);
    let ghost pre_phys = *old(rigid_body_set);
    if let Some(rb_handle) = go.rigid_body_handle {
        let key = BehaviorData::Behaviors(Behaviors::BArrowControl);
        if let Some(di) = find_data_index(go, key) {
            if let BehaviorDataContainerEnum::ArrowControlData(arrow_control_data) =
                go.behaviors_data[di].1 {
                let mut ix: i64 = 0;
                let mut moved = false;
                if loop_ctx.keys_held.holds(Key::Right) {
                    ix = ix + arrow_control_data.accel;
                    moved = true;
                }
                if loop_ctx.keys_held.holds(Key::Left) {
                    ix = ix - arrow_control_data.accel;
                    moved = true;
                }
                let mut iy: i64 = 0;
                if go.grounded && loop_ctx.keys_held.holds(Key::Space) {
                    iy = 2 * arrow_control_data.accel;
                    go.grounded = false;
                }
                let imp = FxVec2 { x: ix, y: iy };
                proof {
                    assert(imp == spec_arrow_impulse(
                        arrow_control_data,
                        loop_ctx.keys_held,
                        pre_go.grounded,
                    ));
                    assert(go.grounded == (pre_go.grounded && !loop_ctx.keys_held.spec_holds(
                        Key::Space,
                    )));
                }
                rigid_body_set.apply_impulse(rb_handle, imp);
                proof {
                    if pre_phys.has_body(rb_handle) {
                        let bi = pre_phys.body_index(rb_handle);
                        assert(rigid_body_set.bodies@[bi].handle == rb_handle);
                        assert(rigid_body_set.has_body(rb_handle));
                        rigid_body_set.lemma_body_index_is(bi);
                    }
                }
                if let Some(linvel) = rigid_body_set.linvel(rb_handle) {
                    proof {
                        assert(pre_phys.has_body(rb_handle));
                        assert(linvel == pre_phys.spec_vel_after_impulse(rb_handle, imp));
                    }
                    let mut vx = linvel.x;
                    if go.grounded && !moved {
                        vx = fx_mul(vx, 950);
                    }
                    let t = if vx < arrow_control_data.max_speed {
                        vx
                    } else {
                        arrow_control_data.max_speed
                    };
                    let vx2 = if t > -arrow_control_data.max_speed {
                        t
                    } else {
                        -arrow_control_data.max_speed
                    };
                    let vf = FxVec2 { x: vx2, y: linvel.y };
                    proof {
                        assert(vf == spec_arrow_final_vel(
                            pre_phys,
                            rb_handle,
                            arrow_control_data,
                            loop_ctx.keys_held,
                            pre_go.grounded,
                        ));
                    }
                    rigid_body_set.set_linvel(rb_handle, vf);
                    proof {
                        let bi = pre_phys.body_index(rb_handle);
                        assert(rigid_body_set.bodies@ =~= pre_phys.bodies@.update(
                            bi,
                            (RigidBodyState { linvel: vf, ..pre_phys.spec_body(rb_handle) }),
                        ));
                        rigid_body_set.lemma_body_index_is(bi);
                    }
                } else {
                    proof {
                        assert(!pre_phys.has_body(rb_handle));
                    }
                }
            }
        }
    }
    (Vec::new(), Vec::new())
}

/// The drawable offset after one debug nudge.
pub open spec fn spec_debug_drawable(d: DrawableObject, loop_ctx: LoopContext) -> DrawableObject {
    DrawableObject {
        position: (FxVec3 {
            x: spec_sat(
                d.position.x + spec_fx_mul(
                    spec_debug_rx(loop_ctx.keys_held),
                    loop_ctx.deltasecs as int,
                ),
            ) as i64,
            y: spec_sat(
                d.position.y + spec_fx_mul(
                    spec_debug_ry(loop_ctx.keys_held),
                    loop_ctx.deltasecs as int,
                ),
            ) as i64,
            z: d.position.z,
        }),
        ..d
    }
}

/// The debug nudge applied to an optional drawable.
pub open spec fn spec_debug_applied(
    d: Option<DrawableObject>,
    loop_ctx: LoopContext,
) -> Option<DrawableObject> {
    match d {
        Some(dd) => Some(spec_debug_drawable(dd, loop_ctx)),
        None => None,
    }
}

/// Debug nudge: moves the purely visual drawable offset by a constant rate
/// scaled by the frame delta, in response to four directional symbols.
/// No physics interaction; entities without a drawable are untouched.
pub fn debuggin(go: &mut GameObject, loop_ctx: &LoopContext) -> (r: (
    Vec<GameObjectID>,
    Vec<GameObject>,
))
    requires
        old(go).wf(),
        loop_ctx.wf(),
    ensures
        r.0@.len() == 0,
        r.1@.len() == 0,
        final(go).wf(),
        *final(go) == (GameObject {
            drawable_object: spec_debug_applied(old(go).drawable_object, *loop_ctx),
            ..*old(go)
        }),
{
    let mut rx: i64 = 0;
    let mut ry: i64 = 0;
    if loop_ctx.keys_held.holds(Key::I) {
        ry = ry + FX_ONE;
    }
    if loop_ctx.keys_held.holds(Key::K) {
        ry = ry - FX_ONE;
    }
    if loop_ctx.keys_held.holds(Key::L) {
        rx = rx + FX_ONE;
    }
    if loop_ctx.keys_held.holds(Key::J) {
        rx = rx - FX_ONE;
    }
    if let Some(draw_obj) = &mut go.drawable_object {
        let px = sat_add(draw_obj.position.x, fx_mul(rx, loop_ctx.deltasecs));
        let py = sat_add(draw_obj.position.y, fx_mul(ry, loop_ctx.deltasecs));
        draw_obj.position.x = px;
        draw_obj.position.y = py;
    }
    (Vec::new(), Vec::new())
}

/// The camera with its focus set to the entity's position plus the
/// configured offset.
pub open spec fn spec_tracked_camera(
    go: GameObject,
    d: CameraTrackingData,
    cam: CameraParams,
) -> CameraParams {
    CameraParams {
        view_pos: (FxVec3 {
            x: spec_sat(go.position.x + d.x_off) as i64,
            y: spec_sat(go.position.y + d.y_off) as i64,
            z: spec_sat(go.position.z + d.z_off) as i64,
        }),
        ..cam
    }
}

/// Camera tracking: sets the camera's focus position to the entity's
/// position plus the configured per-axis offset, every frame it runs.
pub fn camera_tracking(go: &GameObject, camera: &mut CameraParams) -> (r: (
    Vec<GameObjectID>,
    Vec<GameObject>,
))
    requires
        go.wf(),
        old(camera).wf(),
    ensures
        r.0@.len() == 0,
        r.1@.len() == 0,
        final(camera).wf(),
        (match spec_tracking_data(*go) {
            Some(d) => *final(camera) == spec_tracked_camera(*go, d, *old(camera)),
            None => *final(camera) == *old(camera),
        }),
{
    let key = BehaviorData::Behaviors(Behaviors::BCameraTracking);
    if let Some(i) = find_data_index(go, key) {
        if let BehaviorDataContainerEnum::CameraTrackingData(d) = go.behaviors_data[i].1 {
            camera.view_pos.x = sat_add(go.position.x, d.x_off);
            camera.view_pos.y = sat_add(go.position.y, d.y_off);
            camera.view_pos.z = sat_add(go.position.z, d.z_off);
        }
    }
    (Vec::new(), Vec::new())
}

/// Inverse mass the engine derives for a unit ball of default density; the
/// model mirrors it so impulses move spawned balls at the engine's scale.
pub const BALL_INV_MASS: i64 = 318;

/// The engine's default friction coefficient, fixed-point.
pub const DEFAULT_FRICTION: i64 = 500;

/// The spawner fires when its trigger key is held, its state is attached,
/// and at least the cooldown has passed since the last successful spawn.
pub open spec fn spec_spawn_fires(go: GameObject, loop_ctx: LoopContext) -> bool {
    &&& loop_ctx.keys_held.spec_holds(Key::LCtrl)
    &&& spec_spawn_data(go) is Some
    &&& loop_ctx.game_time - spec_spawn_data(go)->0.last_use >= spec_spawn_data(
        go,
    )->0.cooldown_length
}

/// The entity a spawn produces: a fresh ball at the origin transform,
/// bound to body `h`, drawn with mesh `ball_idx`, carrying an attraction
/// behavior that targets the spawner's identity with unit force. Its
/// identity is assigned later, by the store.
pub open spec fn spec_spawned_ball_is(
    e: GameObject,
    spawner_id: GameObjectID,
    ball_idx: usize,
    h: BodyHandle,
) -> bool {
    &&& e.position == FxVec3::spec_zero()
    &&& e.rotation == FxVec3::spec_zero()
    &&& e.scale == FxVec3::spec_one()
    &&& e.children@.len() == 0
    &&& e.drawable_object == Some(
        (DrawableObject {
            position: FxVec3::spec_zero(),
            rotation: FxVec3::spec_zero(),
            scale: FxVec3::spec_one(),
            drawable_group_idx: ball_idx,
        }),
    )
    &&& e.rigid_body_handle == Some(h)
    &&& e.behaviors@ == seq![Behaviors::BAttractionTo]
    &&& e.collision_behaviors@.len() == 0
    &&& e.behaviors_data@ == seq![
        (
            BehaviorData::Behaviors(Behaviors::BAttractionTo),
            BehaviorDataContainerEnum::AttractionToData(
                AttractionToData { target: spawner_id, force: FX_ONE },
            ),
        ),
    ]
    &&& e.collisions_behavior_data@.len() == 0
    &&& e.id == 0
    &&& e.grounded
    &&& e.wf()
}

/// What the timed spawner does: when it fires and the ball mesh resolves,
/// exactly one new entity is produced, a dynamic ball body with an
/// event-emitting collider is created at the spawner's position, and the
/// cooldown timestamp resets to now; otherwise nothing changes at all.
pub open spec fn spec_spawn_post(
    go0: GameObject,
    loop_ctx: LoopContext,
    phys0: PhysicsWorld,
    go1: GameObject,
    phys1: PhysicsWorld,
    adds: Seq<GameObject>,
) -> bool {
    let key = BehaviorData::Behaviors(Behaviors::BSpawnBall);
    let d = spec_spawn_data(go0)->0;
    let h = phys0.next_body_handle;
    let ch = phys0.next_collider_handle;
    if spec_spawn_fires(go0, loop_ctx) && loop_ctx.spec_model_has(ModelName::Ball) {
        &&& adds.len() == 1
        &&& spec_spawned_ball_is(
            adds[0],
            go0.id,
            loop_ctx.spec_model_idx(ModelName::Ball),
            h,
        )
        &&& go1 == (GameObject { behaviors_data: go1.behaviors_data, ..go0 })
        &&& go1.behaviors_data@ == go0.behaviors_data@.update(
            go0.spec_data_index(key),
            (
                key,
                BehaviorDataContainerEnum::SpawnBallData(
                    SpawnBallData {
                        last_use: loop_ctx.game_time,
                        cooldown_length: d.cooldown_length,
                    },
                ),
            ),
        )
        &&& phys1.bodies@ == phys0.bodies@.push(
            (RigidBodyState {
                handle: h,
                kind: BodyKind::Dynamic,
                translation: (FxVec2 { x: go0.position.x, y: go0.position.y }),
                linvel: (FxVec2 { x: 0, y: 0 }),
                angle: 0,
                inv_mass: BALL_INV_MASS,
                lock_rotations: false,
            }),
        )
        &&& phys1.colliders@ == phys0.colliders@.push(
            (ColliderState {
                handle: ch,
                parent: Some(h),
                shape: (ColliderShape::Ball { radius: FX_ONE }),
                active_events: true,
                friction: DEFAULT_FRICTION,
            }),
        )
        &&& phys1.next_body_handle == h + 1
        &&& phys1.next_collider_handle == ch + 1
        &&& phys1.commands@ == phys0.commands@.push(
            (PhysCommand::CreateBody {
                handle: h,
                kind: BodyKind::Dynamic,
                translation: (FxVec2 { x: go0.position.x, y: go0.position.y }),
                lock_rotations: false,
            }),
        ).push(
            (PhysCommand::CreateCollider {
                handle: ch,
                parent: h,
                shape: (ColliderShape::Ball { radius: FX_ONE }),
                active_events: true,
                friction: DEFAULT_FRICTION,
            }),
        )
    } else {
        go1 == go0 && phys1 == phys0 && adds.len() == 0
    }
}

/// Timed spawner: while the trigger key is held and the cooldown window has
/// passed, creates one physics-bound ball entity at the spawner's position,
/// attaches an attraction behavior targeting the spawner's own identity,
/// and resets the cooldown timestamp to now; a no-op otherwise. Firing
/// twice within the cooldown window therefore produces exactly one entity.
#[verifier::rlimit(100)]
pub fn spawn_ball(
    go: &mut GameObject,
    loop_ctx: &LoopContext,
    rigid_body_set: &mut PhysicsWorld,
) -> (r: (Vec<GameObjectID>, Vec<GameObject>))
    requires
        old(go).wf(),
        old(rigid_body_set).wf(),
        loop_ctx.wf(),
        old(rigid_body_set).next_body_handle < u64::MAX,
        old(rigid_body_set).next_collider_handle < u64::MAX,
    ensures
        r.0@.len() == 0,
        final(go).wf(),
        final(rigid_body_set).wf(),
        spec_spawn_post(
            *old(go),
            *loop_ctx,
            *old(rigid_body_set),
            *final(go),
            *final(rigid_body_set),
            r.1@,
        ),
{
    let ghost pre_go = *old(go);
    let ghost pre_phys = *old(rigid_body_set);
    let mut objs_to_add: Vec<GameObject> = Vec::new();
    let key = BehaviorData::Behaviors(Behaviors::BSpawnBall);
    if loop_ctx.keys_held.holds(Key::LCtrl) {
        if let Some(di) = find_data_index(go, key) {
            if let BehaviorDataContainerEnum::SpawnBallData(spawn_ball_data) =
                go.behaviors_data[di].1 {
                if loop_ctx.game_time - spawn_ball_data.last_use >= spawn_ball_data.cooldown_length
                {
                    if let Some(ball_idx) = loop_ctx.model_lookup(ModelName::Ball) {
                        let posxyz = go.position;
                        let ball_body_handler = rigid_body_set.insert_body(
                            BodyKind::Dynamic,
                            FxVec2 { x: posxyz.x, y: posxyz.y },
                            false,
                            BALL_INV_MASS,
                        );
                        rigid_body_set.insert_collider_with_parent(
                            ColliderShape::Ball { radius: FX_ONE },
                            true,
                            DEFAULT_FRICTION,
                            ball_body_handler,
                        );
                        let new_ball_obj = make_go_rb(
                            FxVec3::zero(),
                            FxVec3::zero(),
                            FxVec3::one(),
                            FxVec3::zero(),
                            FxVec3::zero(),
                            FxVec3::one(),
                            ball_idx,
                            ball_body_handler,
                        ).add_behavior(Behaviors::BAttractionTo).add_behavior_data(
                            Behaviors::BAttractionTo,
                            BehaviorDataContainerEnum::AttractionToData(
                                AttractionToData { target: go.id, force: FX_ONE },
                            ),
                        );
                        proof {
                            assert(new_ball_obj.behaviors@ =~= seq![Behaviors::BAttractionTo]);
                            assert(new_ball_obj.behaviors_data@ =~= seq![
                                (
                                    BehaviorData::Behaviors(Behaviors::BAttractionTo),
                                    BehaviorDataContainerEnum::AttractionToData(
                                        AttractionToData { target: pre_go.id, force: FX_ONE },
                                    ),
                                ),
                            ]);
                            assert(spec_spawned_ball_is(
                                new_ball_obj,
                                pre_go.id,
                                loop_ctx.spec_model_idx(ModelName::Ball),
                                pre_phys.next_body_handle,
                            ));
                        }
                        objs_to_add.push(new_ball_obj);
                        go.behaviors_data[di] = (
                            key,
                            BehaviorDataContainerEnum::SpawnBallData(
                                SpawnBallData {
                                    last_use: loop_ctx.game_time,
                                    cooldown_length: spawn_ball_data.cooldown_length,
                                },
                            ),
                        );
                        proof {
                            assert forall|i2: int, j2: int|
                                0 <= i2 < go.behaviors_data@.len() && 0 <= j2
                                    < go.behaviors_data@.len() && i2 != j2 implies (
                            #[trigger] go.behaviors_data@[i2]).0
                                != (#[trigger] go.behaviors_data@[j2]).0 by {
                                if i2 != di && j2 != di {
                                    assert(pre_go.behaviors_data@[i2].0
                                        != pre_go.behaviors_data@[j2].0);
                                } else if i2 == di as int {
                                    assert(pre_go.behaviors_data@[j2].0
                                        != pre_go.behaviors_data@[di as int].0);
                                } else {
                                    assert(pre_go.behaviors_data@[i2].0
                                        != pre_go.behaviors_data@[di as int].0);
                                }
                            };
                            assert(go.wf());
                        }
                    }
                }
            }
        }
    }
    (Vec::new(), objs_to_add)
}

/// Law: firing a timed spawner twice within less than the cooldown window
/// produces exactly one new entity, because the first spawn resets the
/// cooldown timestamp to its own time; with the cooldown elapsed between
/// the attempts it produces exactly two.
pub proof fn lemma_spawn_cooldown(
    go0: GameObject,
    loop_ctx1: LoopContext,
    phys0: PhysicsWorld,
    go1: GameObject,
    phys1: PhysicsWorld,
    adds1: Seq<GameObject>,
    loop_ctx2: LoopContext,
    go2: GameObject,
    phys2: PhysicsWorld,
    adds2: Seq<GameObject>,
)
    requires
        go0.wf(),
        spec_spawn_post(go0, loop_ctx1, phys0, go1, phys1, adds1),
        spec_spawn_post(go1, loop_ctx2, phys1, go2, phys2, adds2),
        loop_ctx2.keys_held.spec_holds(Key::LCtrl),
        loop_ctx1.spec_model_has(ModelName::Ball),
        loop_ctx2.spec_model_has(ModelName::Ball),
        spec_spawn_fires(go0, loop_ctx1),
        loop_ctx1.game_time <= loop_ctx2.game_time,
    ensures
        adds1.len() == 1,
        loop_ctx2.game_time - loop_ctx1.game_time < spec_spawn_data(go0)->0.cooldown_length
            ==> adds1.len() + adds2.len() == 1,
        loop_ctx2.game_time - loop_ctx1.game_time >= spec_spawn_data(go0)->0.cooldown_length
            ==> adds1.len() + adds2.len() == 2,
{
    let key = BehaviorData::Behaviors(Behaviors::BSpawnBall);
    let d0 = spec_spawn_data(go0)->0;
    // the first spawn replaced its own slot: afterwards it reads
    // `last_use == loop_ctx1.game_time` with the same cooldown
    let di = go0.spec_data_index(key);
    assert(go0.spec_has_data(key));
    assert(0 <= di < go0.behaviors_data@.len() && go0.behaviors_data@[di].0 == key);
    go0.lemma_data_index_is(di);
    assert(go1.behaviors_data@ == go0.behaviors_data@.update(
        di,
        (
            key,
            BehaviorDataContainerEnum::SpawnBallData(
                SpawnBallData { last_use: loop_ctx1.game_time, cooldown_length: d0.cooldown_length },
            ),
        ),
    ));
    assert forall|i2: int, j2: int|
        0 <= i2 < go1.behaviors_data@.len() && 0 <= j2 < go1.behaviors_data@.len() && i2
            != j2 implies (#[trigger] go1.behaviors_data@[i2]).0 != (
    #[trigger] go1.behaviors_data@[j2]).0 by {
        assert(go0.behaviors_data@[i2].0 != go0.behaviors_data@[j2].0);
    };
    go1.lemma_data_index_is(di);
    assert(spec_spawn_data(go1) == Some(
        (SpawnBallData { last_use: loop_ctx1.game_time, cooldown_length: d0.cooldown_length }),
    ));
    if loop_ctx2.game_time - loop_ctx1.game_time < d0.cooldown_length {
        assert(!spec_spawn_fires(go1, loop_ctx2));
    } else {
        assert(spec_spawn_fires(go1, loop_ctx2));
    }
}

/// Squared planar distance between two translations.
pub open spec fn spec_attr_len2(a: FxVec2, b: FxVec2) -> int {
    (b.x - a.x) * (b.x - a.x) + (b.y - a.y) * (b.y - a.y)
}

/// Distance between two translations: the integer square root of the
/// squared distance.
pub open spec fn spec_attr_len(a: FxVec2, b: FxVec2) -> int {
    spec_isqrt(spec_attr_len2(a, b))
}

/// The attraction impulse: the unit vector from `a` toward `b`, scaled by
/// `force` — component-wise `(b - a) * force / |b - a|`.
pub open spec fn spec_attr_impulse(a: FxVec2, b: FxVec2, force: int) -> FxVec2 {
    FxVec2 {
        x: spec_mul_div(b.x - a.x, force, spec_attr_len(a, b)) as i64,
        y: spec_mul_div(b.y - a.y, force, spec_attr_len(a, b)) as i64,
    }
}

/// The body handle of the attraction target, resolved through the store.
pub open spec fn spec_attr_target_handle(go: GameObject, store: GameObjectStore) -> BodyHandle {
    store.spec_obj(spec_attraction_data(go)->0.target).rigid_body_handle->0
}

/// All lookups the attraction behavior makes succeed, and the two bodies
/// stand apart: state is attached, the entity is bound, the target exists,
/// is bound, both bodies are known, and the distance is positive.
pub open spec fn spec_attraction_active(
    go: GameObject,
    store: GameObjectStore,
    phys: PhysicsWorld,
) -> bool {
    &&& spec_attraction_data(go) is Some
    &&& go.rigid_body_handle is Some
    &&& store.spec_has_id(spec_attraction_data(go)->0.target)
    &&& store.spec_obj(spec_attraction_data(go)->0.target).rigid_body_handle is Some
    &&& phys.has_body(go.rigid_body_handle->0)
    &&& phys.has_body(spec_attr_target_handle(go, store))
    &&& spec_attr_len(
        phys.spec_body(go.rigid_body_handle->0).translation,
        phys.spec_body(spec_attr_target_handle(go, store)).translation,
    ) > 0
}

/// What attraction does: when active, the impulse toward the target is
/// applied to the entity's own body and logged; on any failed lookup —
/// target gone, nothing bound, bodies unknown, zero distance — the physics
/// state is left exactly as it was.
pub open spec fn spec_attraction_post(
    go: GameObject,
    store: GameObjectStore,
    phys0: PhysicsWorld,
    phys1: PhysicsWorld,
) -> bool {
    if spec_attraction_active(go, store, phys0) {
        let h = go.rigid_body_handle->0;
        let imp = spec_attr_impulse(
            phys0.spec_body(h).translation,
            phys0.spec_body(spec_attr_target_handle(go, store)).translation,
            spec_attraction_data(go)->0.force as int,
        );
        phys1.bodies@ == phys0.bodies@.update(
            phys0.body_index(h),
            (RigidBodyState {
                linvel: phys0.spec_vel_after_impulse(h, imp),
                ..phys0.spec_body(h)
            }),
        ) && phys1.commands@ == phys0.commands@.push(
            (PhysCommand::ApplyImpulse { handle: h, impulse: imp }),
        )
    } else {
        phys1.bodies == phys0.bodies && phys1.commands == phys0.commands
    }
}

/// Attraction: looks up the target entity by its stored identity; if it no
/// longer exists or has no physics binding, does nothing; otherwise applies
/// the unit vector toward it, scaled by the configured force, as an impulse
/// to the entity's own body.
#[verifier::rlimit(100)]
pub fn attraction_to(
    go: &GameObject,
    rigid_body_set: &mut PhysicsWorld,
    game_obj_store: &GameObjectStore,
) -> (r: (Vec<GameObjectID>, Vec<GameObject>))
    requires
        go.wf(),
        old(rigid_body_set).wf(),
        game_obj_store.wf(),
    ensures
        r.0@.len() == 0,
        r.1@.len() == 0,
        final(rigid_body_set).wf(),
        final(rigid_body_set).colliders == old(rigid_body_set).colliders,
        final(rigid_body_set).next_body_handle == old(rigid_body_set).next_body_handle,
        final(rigid_body_set).next_collider_handle == old(rigid_body_set).next_collider_handle,
        spec_attraction_post(*go, *game_obj_store, *old(rigid_body_set), *final(rigid_body_set)),
{
    let ghost pre_phys = *old(rigid_body_set);
    let key = BehaviorData::Behaviors(Behaviors::BAttractionTo);
    if let Some(di) = find_data_index(go, key) {
        if let BehaviorDataContainerEnum::AttractionToData(attraction_to_data) =
            go.behaviors_data[di].1 {
            if let Some(rb_handle) = go.rigid_body_handle {
                if let Some(target) = game_obj_store.get(attraction_to_data.target) {
                    if let Some(tar_rb_handle) = target.rigid_body_handle {
                        let a_opt = rigid_body_set.translation(rb_handle);
                        let b_opt = rigid_body_set.translation(tar_rb_handle);
                        if let Some(a) = a_opt {
                            if let Some(b) = b_opt {
                                let dx = b.x - a.x;
                                let dy = b.y - a.y;
                                proof {
                                    assert(0 <= dx * dx <= 4_000_000_000_000_000_000
                                        && (dx != 0 ==> dx * dx >= 1)) by (nonlinear_arith)
                                        requires -2_000_000_000 <= dx <= 2_000_000_000,
                                    ;
                                    assert(0 <= dy * dy <= 4_000_000_000_000_000_000
                                        && (dy != 0 ==> dy * dy >= 1)) by (nonlinear_arith)
                                        requires -2_000_000_000 <= dy <= 2_000_000_000,
                                    ;
                                }
                                let n2: i64 = dx * dx + dy * dy;
                                let len = isqrt(n2 as u64);
                                if len > 0 {
                                    proof {
                                        assert(len as int <= 3_000_000_000) by (nonlinear_arith)
                                            requires
                                                (len as int) * (len as int) <= n2 as int,
                                                0 <= n2 <= 8_000_000_000_000_000_000i64,
                                                len as int >= 0,
                                        ;
                                        let f = spec_abs(attraction_to_data.force as int);
                                        lemma_unit_scale_bound(dx as int, n2 as int, len as int, f);
                                        lemma_unit_scale_bound(dy as int, n2 as int, len as int, f);
                                    }
                                    let ix = mul_div(dx, attraction_to_data.force, len as i64);
                                    let iy = mul_div(dy, attraction_to_data.force, len as i64);
                                    let imp = FxVec2 { x: ix, y: iy };
                                    proof {
                                        assert(imp == spec_attr_impulse(
                                            a,
                                            b,
                                            attraction_to_data.force as int,
                                        ));
                                        assert(spec_attraction_active(
                                            *go,
                                            *game_obj_store,
                                            pre_phys,
                                        ));
                                    }
                                    rigid_body_set.apply_impulse(rb_handle, imp);
                                } else {
                                    proof {
                                        assert(spec_attr_len(a, b) == 0);
                                    }
                                }
                            }
                        }
                    }
                }
            }
        }
    }
    (Vec::new(), Vec::new())
}

/// Margin under an entity's height within which a body below still counts
/// as stood upon, fixed-point.
pub const FLOOR_MARGIN: i64 = 200;

/// The floor-contact condition: the other entity's body is in the floor
/// set, and this entity stands at or above it, less a small margin.
pub open spec fn spec_floor_contact(
    go: GameObject,
    other: GameObject,
    loop_ctx: LoopContext,
    phys: PhysicsWorld,
) -> bool {
    &&& other.rigid_body_handle is Some
    &&& loop_ctx.spec_floor_contains(other.rigid_body_handle->0)
    &&& phys.has_body(other.rigid_body_handle->0)
    &&& go.position.y - FLOOR_MARGIN >= phys.spec_body(other.rigid_body_handle->0).translation.y
}

/// Floor contact: sets `grounded` when resting on top of a floor-tagged
/// body. Models "landed on top of", not general contact; anything else
/// leaves the entity untouched.
pub fn handle_floor_behaviors(
    go: &mut GameObject,
    other: &GameObject,
    loop_ctx: &LoopContext,
    rigid_body_set: &PhysicsWorld,
) -> (r: (Vec<GameObjectID>, Vec<GameObject>))
    requires
        old(go).wf(),
        rigid_body_set.wf(),
    ensures
        r.0@.len() == 0,
        r.1@.len() == 0,
        final(go).wf(),
        *final(go) == (GameObject {
            grounded: old(go).grounded || spec_floor_contact(
                *old(go),
                *other,
                *loop_ctx,
                *rigid_body_set,
            ),
            ..*old(go)
        }),
{
    if let Some(other_rb_handle) = other.rigid_body_handle {
        if loop_ctx.floor_contains(other_rb_handle) {
            if let Some(t) = rigid_body_set.translation(other_rb_handle) {
                if go.position.y - FLOOR_MARGIN >= t.y {
                    go.grounded = true;
                }
            }
        }
    }
    (Vec::new(), Vec::new())
}

/// The collider a spawn attaches to its ball body.
pub open spec fn spec_ball_collider(ch: ColliderHandle, parent: BodyHandle) -> ColliderState {
    ColliderState {
        handle: ch,
        parent: Some(parent),
        shape: (ColliderShape::Ball { radius: FX_ONE }),
        active_events: true,
        friction: DEFAULT_FRICTION,
    }
}

/// Whether the tag `t` stands among the first `c` entries of `s`.
pub open spec fn spec_prefix_has(s: Seq<Behaviors>, c: int, t: Behaviors) -> bool {
    exists|j: int| 0 <= j < c && s[j] == t
}

/// What behavior dispatch has done to the entity, the physics model, the
/// camera and the collected additions once the flagged behaviors have run:
/// directional control settles `grounded`, the debug nudge settles the
/// drawable, camera tracking settles the camera, and the spawner settles
/// the behavior data, the additions and the created body and collider.
/// Bodies already present keep their index, handle, pose and mass; only
/// velocities move.
pub open spec fn spec_dispatch_mid(
    go0: GameObject,
    phys0: PhysicsWorld,
    cam0: CameraParams,
    loop_ctx: LoopContext,
    arrow_done: bool,
    debug_done: bool,
    camera_done: bool,
    spawn_done: bool,
    go1: GameObject,
    phys1: PhysicsWorld,
    cam1: CameraParams,
    adds: Seq<GameObject>,
) -> bool {
    let spawnkey = BehaviorData::Behaviors(Behaviors::BSpawnBall);
    let spawns = spawn_done && spec_spawn_fires(go0, loop_ctx) && loop_ctx.spec_model_has(
        ModelName::Ball,
    );
    let n0 = phys0.bodies@.len() as int;
    &&& go1 == (GameObject {
        grounded: go1.grounded,
        drawable_object: go1.drawable_object,
        behaviors_data: go1.behaviors_data,
        ..go0
    })
    &&& go1.grounded == (if arrow_done && go0.rigid_body_handle is Some && spec_arrow_data(go0)
        is Some {
        go0.grounded && !loop_ctx.keys_held.spec_holds(Key::Space)
    } else {
        go0.grounded
    })
    &&& go1.drawable_object == (if debug_done {
        spec_debug_applied(go0.drawable_object, loop_ctx)
    } else {
        go0.drawable_object
    })
    &&& cam1 == (if camera_done && spec_tracking_data(go0) is Some {
        spec_tracked_camera(go0, spec_tracking_data(go0)->0, cam0)
    } else {
        cam0
    })
    &&& (if spawns {
        &&& adds.len() == 1
        &&& spec_spawned_ball_is(
            adds[0],
            go0.id,
            loop_ctx.spec_model_idx(ModelName::Ball),
            phys0.next_body_handle,
        )
        &&& go1.behaviors_data@ == go0.behaviors_data@.update(
            go0.spec_data_index(spawnkey),
            (
                spawnkey,
                BehaviorDataContainerEnum::SpawnBallData(
                    SpawnBallData {
                        last_use: loop_ctx.game_time,
                        cooldown_length: spec_spawn_data(go0)->0.cooldown_length,
                    },
                ),
            ),
        )
        &&& phys1.next_body_handle == phys0.next_body_handle + 1
        &&& phys1.next_collider_handle == phys0.next_collider_handle + 1
        &&& phys1.colliders@ == phys0.colliders@.push(
            spec_ball_collider(phys0.next_collider_handle, phys0.next_body_handle),
        )
        &&& phys1.bodies@.len() == n0 + 1
        &&& phys1.bodies@[n0].handle == phys0.next_body_handle
        &&& phys1.bodies@[n0].translation == (FxVec2 { x: go0.position.x, y: go0.position.y })
        &&& phys1.bodies@[n0].kind == BodyKind::Dynamic
        &&& phys1.bodies@[n0].inv_mass == BALL_INV_MASS
        &&& !phys1.bodies@[n0].lock_rotations
    } else {
        &&& adds.len() == 0
        &&& go1.behaviors_data@ == go0.behaviors_data@
        &&& phys1.bodies@.len() == n0
        &&& phys1.colliders@ == phys0.colliders@
        &&& phys1.next_body_handle == phys0.next_body_handle
        &&& phys1.next_collider_handle == phys0.next_collider_handle
    })
    &&& forall|j: int|
        0 <= j < n0 ==> (#[trigger] phys1.bodies@[j]).handle == phys0.bodies@[j].handle
            && phys1.bodies@[j].translation == phys0.bodies@[j].translation
            && phys1.bodies@[j].kind == phys0.bodies@[j].kind && phys1.bodies@[j].inv_mass
            == phys0.bodies@[j].inv_mass && phys1.bodies@[j].angle == phys0.bodies@[j].angle
            && phys1.bodies@[j].lock_rotations == phys0.bodies@[j].lock_rotations
    &&& phys0.commands@.is_prefix_of(phys1.commands@)
}

/// Per-entity behavior dispatch: runs every behavior tag attached to the
/// entity, in tag order, and collects the structural changes they request
/// instead of applying them. No behavior of the catalog requests removals;
/// additions come only from the timed spawner. `grounded` is never granted
/// here — dispatch can only take it away, on a jump.
#[verifier::rlimit(100)]
pub fn apply_behaviors(
    go: &mut GameObject,
    loop_ctx: &LoopContext,
    rigid_body_set: &mut PhysicsWorld,
    camera: &mut CameraParams,
    game_obj_store: &GameObjectStore,
) -> (r: (Vec<GameObjectID>, Vec<GameObject>))
    requires
        old(go).wf(),
        old(rigid_body_set).wf(),
        old(camera).wf(),
        game_obj_store.wf(),
        loop_ctx.wf(),
        old(rigid_body_set).next_body_handle < u64::MAX - 1,
        old(rigid_body_set).next_collider_handle < u64::MAX - 1,
    ensures
        r.0@.len() == 0,
        final(go).wf(),
        final(rigid_body_set).wf(),
        final(camera).wf(),
        final(go).grounded ==> old(go).grounded,
        spec_dispatch_mid(
            *old(go),
            *old(rigid_body_set),
            *old(camera),
            *loop_ctx,
            old(go).spec_has_behavior(Behaviors::BArrowControl),
            old(go).spec_has_behavior(Behaviors::BDebuggin),
            old(go).spec_has_behavior(Behaviors::BCameraTracking),
            old(go).spec_has_behavior(Behaviors::BSpawnBall),
            *final(go),
            *final(rigid_body_set),
            *final(camera),
            r.1@,
        ),
{
    let ghost pre_go = *old(go);
    let ghost pre_phys = *old(rigid_body_set);
    let ghost pre_cam = *old(camera);
    let mut behaviors_copy: Vec<Behaviors> = Vec::new();
    let mut bi: usize = 0;
    while bi < go.behaviors.len()
        invariant
            bi <= go.behaviors@.len(),
            behaviors_copy@ == go.behaviors@.subrange(0, bi as int),
        decreases go.behaviors@.len() - bi,
    {
        behaviors_copy.push(go.behaviors[bi]);
        bi = bi + 1;
    }
    proof {
        assert(behaviors_copy@ =~= pre_go.behaviors@);
    }
    let objs_to_remove: Vec<GameObjectID> = Vec::new();
    let mut objs_to_add: Vec<GameObject> = Vec::new();
    let mut c: usize = 0;
    while c < behaviors_copy.len()
        invariant
            c <= behaviors_copy@.len(),
            behaviors_copy@ == pre_go.behaviors@,
            pre_go.wf(),
            pre_phys.wf(),
            pre_cam.wf(),
            loop_ctx.wf(),
            game_obj_store.wf(),
            pre_phys.next_body_handle < u64::MAX - 1,
            pre_phys.next_collider_handle < u64::MAX - 1,
            go.wf(),
            rigid_body_set.wf(),
            camera.wf(),
            objs_to_remove@.len() == 0,
            go.grounded ==> pre_go.grounded,
            rigid_body_set.next_body_handle <= pre_phys.next_body_handle + 1,
            rigid_body_set.next_collider_handle <= pre_phys.next_collider_handle + 1,
            spec_dispatch_mid(
                pre_go,
                pre_phys,
                pre_cam,
                *loop_ctx,
                spec_prefix_has(behaviors_copy@, c as int, Behaviors::BArrowControl),
                spec_prefix_has(behaviors_copy@, c as int, Behaviors::BDebuggin),
                spec_prefix_has(behaviors_copy@, c as int, Behaviors::BCameraTracking),
                spec_prefix_has(behaviors_copy@, c as int, Behaviors::BSpawnBall),
                *go,
                *rigid_body_set,
                *camera,
                objs_to_add@,
            ),
        decreases behaviors_copy@.len() - c,
    {
        let ghost mid_go = *go;
        let ghost mid_phys = *rigid_body_set;
        let ghost mid_cam = *camera;
        let ghost spawnkey = BehaviorData::Behaviors(Behaviors::BSpawnBall);
        proof {
            // tags are unique, so the tag at `c` has not run yet
            assert forall|t: Behaviors| #[trigger] spec_prefix_has(behaviors_copy@, c as int, t)
                implies spec_prefix_has(behaviors_copy@, c as int + 1, t) by {}
            assert(!spec_prefix_has(behaviors_copy@, c as int, behaviors_copy@[c as int]));
            if spec_prefix_has(behaviors_copy@, c as int, Behaviors::BSpawnBall)
                && spec_spawn_fires(pre_go, *loop_ctx) && loop_ctx.spec_model_has(ModelName::Ball) {
                // the spawner has replaced its own slot; other keys read the same
                let di = pre_go.spec_data_index(spawnkey);
                pre_go.lemma_data_index_is(di);
                pre_go.lemma_update_preserves_other_keys(
                    mid_go,
                    di,
                    mid_go.behaviors_data@[di].1,
                    BehaviorData::Behaviors(Behaviors::BArrowControl),
                );
                pre_go.lemma_update_preserves_other_keys(
                    mid_go,
                    di,
                    mid_go.behaviors_data@[di].1,
                    BehaviorData::Behaviors(Behaviors::BCameraTracking),
                );
                pre_go.lemma_update_preserves_other_keys(
                    mid_go,
                    di,
                    mid_go.behaviors_data@[di].1,
                    BehaviorData::Behaviors(Behaviors::BAttractionTo),
                );
            }
        }
        let tag = behaviors_copy[c];
        match tag {
            Behaviors::BArrowControl => {
                let (to_remove, to_add) = arrow_control(go, loop_ctx, rigid_body_set);
                proof {
                    if mid_phys.has_body(pre_go.rigid_body_handle->0)
                        && pre_go.rigid_body_handle is Some {
                        mid_phys.lemma_body_index_is(
                            mid_phys.body_index(pre_go.rigid_body_handle->0),
                        );
                    }
                    assert(mid_phys.commands@.is_prefix_of(rigid_body_set.commands@)) by {
                        assert(rigid_body_set.commands@.subrange(
                            0,
                            mid_phys.commands@.len() as int,
                        ) =~= mid_phys.commands@);
                    }
                }
            },
            Behaviors::BDebuggin => {
                let (to_remove, to_add) = debuggin(go, loop_ctx);
            },
            Behaviors::BCameraTracking => {
                let (to_remove, to_add) = camera_tracking(go, camera);
            },
            Behaviors::BSpawnBall => {
                let ghost adds_before = objs_to_add@;
                let (to_remove, mut to_add) = spawn_ball(go, loop_ctx, rigid_body_set);
                let ghost spawned = to_add@;
                objs_to_add.append(&mut to_add);
                proof {
                    assert(mid_go.behaviors_data@ =~= pre_go.behaviors_data@);
                    assert(spec_spawn_fires(mid_go, *loop_ctx) == spec_spawn_fires(
                        pre_go,
                        *loop_ctx,
                    ));
                    if spec_spawn_fires(pre_go, *loop_ctx) && loop_ctx.spec_model_has(
                        ModelName::Ball,
                    ) {
                        assert(mid_go.spec_data_index(spawnkey) == pre_go.spec_data_index(
                            spawnkey,
                        )) by {
                            let di = pre_go.spec_data_index(spawnkey);
                            pre_go.lemma_data_index_is(di);
                            assert(mid_go.behaviors_data@[di].0 == spawnkey);
                            mid_go.lemma_data_index_is(di);
                        }
                        assert(objs_to_add@ =~= spawned);
                    }
                    assert(mid_phys.commands@.is_prefix_of(rigid_body_set.commands@)) by {
                        assert(rigid_body_set.commands@.subrange(
                            0,
                            mid_phys.commands@.len() as int,
                        ) =~= mid_phys.commands@);
                    }
                }
            },
            Behaviors::BAttractionTo => {
                let (to_remove, to_add) = attraction_to(go, rigid_body_set, game_obj_store);
                proof {
                    if spec_attraction_active(mid_go, *game_obj_store, mid_phys) {
                        mid_phys.lemma_body_index_is(
                            mid_phys.body_index(mid_go.rigid_body_handle->0),
                        );
                    }
                    assert(mid_phys.commands@.is_prefix_of(rigid_body_set.commands@)) by {
                        assert(rigid_body_set.commands@.subrange(
                            0,
                            mid_phys.commands@.len() as int,
                        ) =~= mid_phys.commands@);
                    }
                }
            },
        }
        proof {
            assert(behaviors_copy@[c as int] == tag);
        }
        c = c + 1;
    }
    proof {
        assert forall|t: Behaviors| pre_go.spec_has_behavior(t) implies spec_prefix_has(
            behaviors_copy@,
            behaviors_copy@.len() as int,
            t,
        ) by {}
        assert forall|t: Behaviors|
            spec_prefix_has(behaviors_copy@, behaviors_copy@.len() as int, t) implies pre_go
            .spec_has_behavior(t) by {}
    }
    (objs_to_remove, objs_to_add)
}

/// Collision-behavior dispatch for one entity against one other entity in
/// contact this frame: runs every collision-behavior tag on the entity.
/// `grounded` can only be granted here, never revoked, and only by floor
/// contact.
pub fn apply_collision_behaviors(
    go: &mut GameObject,
    other: &GameObject,
    loop_ctx: &LoopContext,
    rigid_body_set: &PhysicsWorld,
) -> (r: (Vec<GameObjectID>, Vec<GameObject>))
    requires
        old(go).wf(),
        rigid_body_set.wf(),
    ensures
        r.0@.len() == 0,
        r.1@.len() == 0,
        final(go).wf(),
        *final(go) == (GameObject {
            grounded: old(go).grounded || (old(go).spec_has_collision_behavior(
                CollisionBehaviors::CHandleFloorCollision,
            ) && spec_floor_contact(*old(go), *other, *loop_ctx, *rigid_body_set)),
            ..*old(go)
        }),
{
    let ghost pre = *old(go);
    let mut collision_behaviors_copy: Vec<CollisionBehaviors> = Vec::new();
    let mut b: usize = 0;
    while b < go.collision_behaviors.len()
        invariant
            b <= go.collision_behaviors@.len(),
            collision_behaviors_copy@ == go.collision_behaviors@.subrange(0, b as int),
        decreases go.collision_behaviors@.len() - b,
    {
        collision_behaviors_copy.push(go.collision_behaviors[b]);
        b = b + 1;
    }
    proof {
        assert(collision_behaviors_copy@ =~= go.collision_behaviors@);
    }
    let objs_to_remove: Vec<GameObjectID> = Vec::new();
    let objs_to_add: Vec<GameObject> = Vec::new();
    let mut c: usize = 0;
    while c < collision_behaviors_copy.len()
        invariant
            c <= collision_behaviors_copy@.len(),
            collision_behaviors_copy@ == pre.collision_behaviors@,
            rigid_body_set.wf(),
            go.wf(),
            *go == (GameObject {
                grounded: pre.grounded || ((exists|j: int|
                    0 <= j < c && collision_behaviors_copy@[j]
                        == CollisionBehaviors::CHandleFloorCollision)
                    && spec_floor_contact(pre, *other, *loop_ctx, *rigid_body_set)),
                ..pre
            }),
        decreases collision_behaviors_copy@.len() - c,
    {
        let tag = collision_behaviors_copy[c];
        match tag {
            CollisionBehaviors::CHandleFloorCollision => {
                let ghost mid = *go;
                let (to_remove, to_add) = handle_floor_behaviors(go, other, loop_ctx, rigid_body_set);
                proof {
                    assert(spec_floor_contact(mid, *other, *loop_ctx, *rigid_body_set)
                        == spec_floor_contact(pre, *other, *loop_ctx, *rigid_body_set));
                    assert(collision_behaviors_copy@[c as int]
                        == CollisionBehaviors::CHandleFloorCollision);
                }
            },
        }
        c = c + 1;
    }
    proof {
        if go.grounded && !pre.grounded {
            assert(pre.spec_has_collision_behavior(CollisionBehaviors::CHandleFloorCollision));
        }
        if pre.spec_has_collision_behavior(CollisionBehaviors::CHandleFloorCollision) {
            let j = choose|j: int|
                0 <= j < pre.collision_behaviors@.len() && pre.collision_behaviors@[j]
                    == CollisionBehaviors::CHandleFloorCollision;
            assert(0 <= j < collision_behaviors_copy@.len() && collision_behaviors_copy@[j]
                == CollisionBehaviors::CHandleFloorCollision);
        }
    }
    (objs_to_remove, objs_to_add)
}

} // verus!
