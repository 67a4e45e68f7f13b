//! The free-look camera: its parameters and the per-frame controller.
//!
//! The controller moves the camera along view-relative axes while movement
//! keys are held (with a sprint multiplier), and turns it from the mouse
//! delta, clamping pitch short of straight up or down and wrapping yaw
//! modulo a full turn. The view direction itself is trigonometry over the
//! rotation angles; the outer layer computes it and passes it in as a
//! fixed-point vector.

use vstd::prelude::*;
use crate::fxmath::{
    fx_in_bounds, fx3_in_bounds, spec_abs, spec_sat, spec_clamp, spec_mul_div, spec_rem_trunc,
    spec_isqrt, is_isqrt, sat_add, mul_div, clamp_i64, rem_trunc, isqrt, lemma_unit_scale_bound,
    FxVec3, FX_ONE, FX_BOUND,
};
use crate::input::{InputState, Key};

verus! {

/// Pitch may not pass `89` degrees either way, so the view never flips.
pub const PITCH_LIMIT: i64 = 89 * FX_ONE;

/// One full turn of yaw, in fixed-point degrees.
pub const FULL_TURN: i64 = 360 * FX_ONE;

/// The camera: where it stands, how it is turned (roll, pitch, yaw in
/// fixed-point degrees), and where the light stands. The projection matrix
/// belongs to the renderer outside this crate.
pub struct CameraParams {
    pub view_pos: FxVec3,
    pub view_rot: FxVec3,
    pub light_position: FxVec3,
}

impl CameraParams {
    /// All components are stored world quantities.
    pub open spec fn wf(self) -> bool {
        fx3_in_bounds(self.view_pos) && fx3_in_bounds(self.view_rot) && fx3_in_bounds(
            self.light_position,
        )
    }

    pub fn new(view_pos: FxVec3, view_rot: FxVec3, light_position: FxVec3) -> (c: CameraParams)
        ensures
            c == (CameraParams { view_pos, view_rot, light_position }),
    {
        CameraParams { view_pos, view_rot, light_position }
    }
}

/// x component of the movement direction: the signed sum of the view
/// direction (held `W` forward, `S` back) and of its horizontal left vector
/// `(-z, 0, x)` (held `D` and `A`).
pub open spec fn spec_cam_dir_x(keys: InputState, look: FxVec3) -> int {
    (if keys.spec_holds(Key::W) { look.x as int } else { 0 })
        - (if keys.spec_holds(Key::S) { look.x as int } else { 0 })
        + (if keys.spec_holds(Key::D) { -(look.z as int) } else { 0 })
        - (if keys.spec_holds(Key::A) { -(look.z as int) } else { 0 })
}

/// y component of the movement direction.
pub open spec fn spec_cam_dir_y(keys: InputState, look: FxVec3) -> int {
    (if keys.spec_holds(Key::W) { look.y as int } else { 0 })
        - (if keys.spec_holds(Key::S) { look.y as int } else { 0 })
}

/// z component of the movement direction.
pub open spec fn spec_cam_dir_z(keys: InputState, look: FxVec3) -> int {
    (if keys.spec_holds(Key::W) { look.z as int } else { 0 })
        - (if keys.spec_holds(Key::S) { look.z as int } else { 0 })
        + (if keys.spec_holds(Key::D) { look.x as int } else { 0 })
        - (if keys.spec_holds(Key::A) { look.x as int } else { 0 })
}

/// Squared length of the movement direction.
pub open spec fn spec_cam_len2(keys: InputState, look: FxVec3) -> int {
    spec_cam_dir_x(keys, look) * spec_cam_dir_x(keys, look) + spec_cam_dir_y(keys, look)
        * spec_cam_dir_y(keys, look) + spec_cam_dir_z(keys, look) * spec_cam_dir_z(keys, look)
}

/// The sprint multiplier: doubled while the sprint key is held.
pub open spec fn spec_cam_speed_mult(keys: InputState) -> int {
    if keys.spec_holds(Key::LShift) { 2 } else { 1 }
}

/// The step the camera takes along one axis: the direction component,
/// normalized by the direction's length and scaled by the speed.
pub open spec fn spec_cam_step(d: int, keys: InputState, look: FxVec3, speed: int) -> int {
    spec_mul_div(d, speed * spec_cam_speed_mult(keys), spec_isqrt(spec_cam_len2(keys, look)))
}

/// Whether any movement key is held.
pub open spec fn spec_cam_moving(keys: InputState) -> bool {
    keys.spec_holds(Key::W) || keys.spec_holds(Key::S) || keys.spec_holds(Key::D)
        || keys.spec_holds(Key::A)
}

/// Per-frame free-look camera update. Returns whether the view changed and
/// the renderer's view matrix wants refreshing.
#[verifier::rlimit(100)]
pub fn camera_controller(
    keys_held: &InputState,
    mouse_delta: (i64, i64),
    camera: &mut CameraParams,
    speed: i64,
    look_dir: FxVec3,
) -> (update_view: bool)
    requires
        old(camera).wf(),
        0 <= speed <= FX_BOUND / 2,
        spec_abs(look_dir.x as int) <= 10 * FX_ONE,
        spec_abs(look_dir.y as int) <= 10 * FX_ONE,
        spec_abs(look_dir.z as int) <= 10 * FX_ONE,
        fx_in_bounds(mouse_delta.0 as int),
        fx_in_bounds(mouse_delta.1 as int),
    ensures
        final(camera).wf(),
        update_view == (spec_cam_moving(*keys_held) || mouse_delta.0 != 0 || mouse_delta.1 != 0),
        final(camera).light_position == old(camera).light_position,
        final(camera).view_rot.x == old(camera).view_rot.x,
        (if mouse_delta.0 != 0 || mouse_delta.1 != 0 {
            final(camera).view_rot.y == spec_clamp(
                old(camera).view_rot.y - mouse_delta.1,
                -PITCH_LIMIT as int,
                PITCH_LIMIT as int,
            ) && final(camera).view_rot.z == spec_rem_trunc(
                old(camera).view_rot.z + mouse_delta.0,
                FULL_TURN as int,
            )
        } else {
            final(camera).view_rot == old(camera).view_rot
        }),
        (if spec_cam_len2(*keys_held, look_dir) == 0 {
            final(camera).view_pos == old(camera).view_pos
        } else {
            final(camera).view_pos.x == spec_sat(
                old(camera).view_pos.x + spec_cam_step(
                    spec_cam_dir_x(*keys_held, look_dir),
                    *keys_held,
                    look_dir,
                    speed as int,
                ),
            ) && final(camera).view_pos.y == spec_sat(
                old(camera).view_pos.y + spec_cam_step(
                    spec_cam_dir_y(*keys_held, look_dir),
                    *keys_held,
                    look_dir,
                    speed as int,
                ),
            ) && final(camera).view_pos.z == spec_sat(
                old(camera).view_pos.z + spec_cam_step(
                    spec_cam_dir_z(*keys_held, look_dir),
                    *keys_held,
                    look_dir,
                    speed as int,
                ),
            )
        }),
{
    let lx = look_dir.x;
    let ly = look_dir.y;
    let lz = look_dir.z;
    // the horizontal left vector: look × (0, 1, 0) = (-z, 0, x)
    let leftx = -lz;
    let leftz = lx;
    let mut dx: i64 = 0;
    let mut dy: i64 = 0;
    let mut dz: i64 = 0;
    let mut update_view = false;
    if keys_held.holds(Key::W) {
        dx = dx + lx;
        dy = dy + ly;
        dz = dz + lz;
        update_view = true;
    }
    if keys_held.holds(Key::S) {
        dx = dx - lx;
        dy = dy - ly;
        dz = dz - lz;
        update_view = true;
    }
    if keys_held.holds(Key::D) {
        dx = dx + leftx;
        dz = dz + leftz;
        update_view = true;
    }
    if keys_held.holds(Key::A) {
        dx = dx - leftx;
        dz = dz - leftz;
        update_view = true;
    }
    proof {
        assert(dx == spec_cam_dir_x(*keys_held, look_dir));
        assert(dy == spec_cam_dir_y(*keys_held, look_dir));
        assert(dz == spec_cam_dir_z(*keys_held, look_dir));
    }
    if !(dx == 0 && dy == 0 && dz == 0) {
        proof {
            assert(0 <= dx * dx <= 1_600_000_000 && (dx != 0 ==> dx * dx >= 1)) by (nonlinear_arith)
                requires -40_000 <= dx <= 40_000,
            ;
            assert(0 <= dy * dy <= 1_600_000_000 && (dy != 0 ==> dy * dy >= 1)) by (nonlinear_arith)
                requires -40_000 <= dy <= 40_000,
            ;
            assert(0 <= dz * dz <= 1_600_000_000 && (dz != 0 ==> dz * dz >= 1)) by (nonlinear_arith)
                requires -40_000 <= dz <= 40_000,
            ;
        }
        let n2: i64 = dx * dx + dy * dy + dz * dz;
        let len = isqrt(n2 as u64);
        proof {
            assert(n2 >= 1);
            if len == 0 {
                assert((len as int + 1) * (len as int + 1) == 1) by (nonlinear_arith)
                    requires len == 0u64,
                ;
                assert(false);
            }
            assert(len as int <= 100_000) by (nonlinear_arith)
                requires
                    (len as int) * (len as int) <= n2 as int,
                    0 <= n2 <= 5_000_000_000i64,
                    len as int >= 0,
            ;
        }
        let sm: i64 = if keys_held.holds(Key::LShift) {
            2
        } else {
            1
        };
        let sp = speed * sm;
        let mx = mul_div(dx, sp, len as i64);
        let my = mul_div(dy, sp, len as i64);
        let mz = mul_div(dz, sp, len as i64);
        proof {
            lemma_unit_scale_bound(dx as int, n2 as int, len as int, sp as int);
            lemma_unit_scale_bound(dy as int, n2 as int, len as int, sp as int);
            lemma_unit_scale_bound(dz as int, n2 as int, len as int, sp as int);
        }
        camera.view_pos.x = sat_add(camera.view_pos.x, mx);
        camera.view_pos.y = sat_add(camera.view_pos.y, my);
        camera.view_pos.z = sat_add(camera.view_pos.z, mz);
    }
    if mouse_delta.0 != 0 || mouse_delta.1 != 0 {
        camera.view_rot.y = clamp_i64(camera.view_rot.y - mouse_delta.1, -PITCH_LIMIT, PITCH_LIMIT);
        camera.view_rot.z = rem_trunc(camera.view_rot.z + mouse_delta.0, FULL_TURN);
        update_view = true;
    }
    update_view
}

} // verus!
