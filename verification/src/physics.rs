//! A fixed-point model of the 2D rigid-body world.
//!
//! The real rigid-body engine lives outside this crate. The core keeps this
//! model of the state it reads and writes — each body's translation, linear
//! velocity and rotation angle — and records every mutating call it decides
//! on in a command log. The outer layer replays the log against the engine
//! and, after each engine step, writes the stepped poses back in with
//! [`PhysicsWorld::sync_body`]. Handles are allocated here, monotonically,
//! and are never reused; bodies are never removed from the model.

use vstd::prelude::*;
use crate::fxmath::{
    fx_in_bounds, fx2_in_bounds, spec_abs, spec_sat, spec_fx_mul, sat_i64, sat_add, fx_mul,
    FxVec2, FX_BOUND,
};

verus! {

/// Reference to a rigid body of the model (and, through the outer layer's
/// handle table, of the engine).
pub type BodyHandle = u64;

/// Reference to a collider of the model.
pub type ColliderHandle = u64;

/// How a body is advanced by the engine.
#[derive(PartialEq, Eq, Structural, Clone, Copy, Debug)]
pub enum BodyKind {
    Dynamic,
    KinematicPositionBased,
}

/// The modelled state of one rigid body.
#[derive(Clone, Copy, Debug)]
pub struct RigidBodyState {
    pub handle: BodyHandle,
    pub kind: BodyKind,
    pub translation: FxVec2,
    pub linvel: FxVec2,
    /// Rotation angle, in fixed-point radians.
    pub angle: i64,
    /// Inverse mass, fixed-point; an impulse changes velocity by
    /// `impulse * inv_mass`.
    pub inv_mass: i64,
    pub lock_rotations: bool,
}

/// The collision shape of a collider.
#[derive(PartialEq, Eq, Structural, Clone, Copy, Debug)]
pub enum ColliderShape {
    Ball { radius: i64 },
    Cuboid { hx: i64, hy: i64 },
}

/// The modelled state of one collider.
#[derive(Clone, Copy, Debug)]
pub struct ColliderState {
    pub handle: ColliderHandle,
    pub parent: Option<BodyHandle>,
    pub shape: ColliderShape,
    /// Whether the engine is asked to emit collision events for it.
    pub active_events: bool,
    /// Fixed-point friction coefficient.
    pub friction: i64,
}

/// One mutating call the core has decided on, to be replayed against the
/// engine by the outer layer.
#[derive(Clone, Copy, Debug)]
#[allow(inconsistent_fields)]
pub enum PhysCommand {
    CreateBody { handle: BodyHandle, kind: BodyKind, translation: FxVec2, lock_rotations: bool },
    CreateCollider {
        handle: ColliderHandle,
        parent: BodyHandle,
        shape: ColliderShape,
        active_events: bool,
        friction: i64,
    },
    ApplyImpulse { handle: BodyHandle, impulse: FxVec2 },
    SetLinvel { handle: BodyHandle, linvel: FxVec2 },
}

impl RigidBodyState {
    /// All stored quantities are in the world range.
    pub open spec fn wf(self) -> bool {
        &&& fx2_in_bounds(self.translation)
        &&& fx2_in_bounds(self.linvel)
        &&& fx_in_bounds(self.angle as int)
        &&& 0 <= self.inv_mass <= FX_BOUND
    }
}

/// The modelled world: bodies, colliders, and the pending command log.
pub struct PhysicsWorld {
    pub bodies: Vec<RigidBodyState>,
    pub colliders: Vec<ColliderState>,
    pub commands: Vec<PhysCommand>,
    pub next_body_handle: BodyHandle,
    pub next_collider_handle: ColliderHandle,
}

impl PhysicsWorld {
    /// Some body of the model carries handle `h`.
    pub open spec fn has_body(self, h: BodyHandle) -> bool {
        exists|i: int| 0 <= i < self.bodies@.len() && self.bodies@[i].handle == h
    }

    /// The index of the body carrying `h`; meaningful under `wf`, where
    /// handles are unique.
    pub open spec fn body_index(self, h: BodyHandle) -> int {
        choose|i: int| 0 <= i < self.bodies@.len() && self.bodies@[i].handle == h
    }

    /// The body carrying `h`.
    pub open spec fn spec_body(self, h: BodyHandle) -> RigidBodyState {
        self.bodies@[self.body_index(h)]
    }

    /// Some collider of the model carries handle `h`.
    pub open spec fn has_collider(self, h: ColliderHandle) -> bool {
        exists|i: int| 0 <= i < self.colliders@.len() && self.colliders@[i].handle == h
    }

    /// The index of the collider carrying `h`.
    pub open spec fn collider_index(self, h: ColliderHandle) -> int {
        choose|i: int| 0 <= i < self.colliders@.len() && self.colliders@[i].handle == h
    }

    /// The collider carrying `h`.
    pub open spec fn spec_collider(self, h: ColliderHandle) -> ColliderState {
        self.colliders@[self.collider_index(h)]
    }

    /// Well-formedness: handles unique and below the allocation counters,
    /// every stored quantity in the world range.
    pub open spec fn wf(self) -> bool {
        &&& forall|i: int| 0 <= i < self.bodies@.len() ==> (#[trigger] self.bodies@[i]).wf()
        &&& forall|i: int| 0 <= i < self.bodies@.len()
            ==> (#[trigger] self.bodies@[i]).handle < self.next_body_handle
        &&& forall|i: int, j: int|
            0 <= i < self.bodies@.len() && 0 <= j < self.bodies@.len() && i != j
                ==> (#[trigger] self.bodies@[i]).handle != (#[trigger] self.bodies@[j]).handle
        &&& forall|i: int| 0 <= i < self.colliders@.len()
            ==> (#[trigger] self.colliders@[i]).handle < self.next_collider_handle
        &&& forall|i: int, j: int|
            0 <= i < self.colliders@.len() && 0 <= j < self.colliders@.len() && i != j
                ==> (#[trigger] self.colliders@[i]).handle
                    != (#[trigger] self.colliders@[j]).handle
    }

    /// Under `wf`, the index found for a handle is the only one.
    pub proof fn lemma_body_index_is(self, i: int)
        requires
            self.wf(),
            0 <= i < self.bodies@.len(),
        ensures
            self.body_index(self.bodies@[i].handle) == i,
    {
        let h = self.bodies@[i].handle;
        assert(self.has_body(h));
        let j = self.body_index(h);
        assert(0 <= j < self.bodies@.len() && self.bodies@[j].handle == h);
        if i != j {
            assert(self.bodies@[i].handle != self.bodies@[j].handle);
        }
    }

    /// Under `wf`, the index found for a collider handle is the only one.
    pub proof fn lemma_collider_index_is(self, i: int)
        requires
            self.wf(),
            0 <= i < self.colliders@.len(),
        ensures
            self.collider_index(self.colliders@[i].handle) == i,
    {
        let h = self.colliders@[i].handle;
        assert(self.has_collider(h));
        let j = self.collider_index(h);
        assert(0 <= j < self.colliders@.len() && self.colliders@[j].handle == h);
        if i != j {
            assert(self.colliders@[i].handle != self.colliders@[j].handle);
        }
    }

    /// An empty world with an empty command log.
    pub fn new() -> (w: PhysicsWorld)
        ensures
            w.wf(),
            w.bodies@.len() == 0,
            w.colliders@.len() == 0,
            w.commands@.len() == 0,
            w.next_body_handle == 0,
            w.next_collider_handle == 0,
    {
        PhysicsWorld {
            bodies: Vec::new(),
            colliders: Vec::new(),
            commands: Vec::new(),
            next_body_handle: 0,
            next_collider_handle: 0,
        }
    }

    /// Index of the body carrying `h`, if any.
    fn find_body(&self, h: BodyHandle) -> (r: Option<usize>)
        requires
            self.wf(),
        ensures
            match r {
                Some(i) => i < self.bodies@.len() && self.bodies@[i as int].handle == h
                    && self.body_index(h) == i,
                None => !self.has_body(h),
            },
    {
        let mut i: usize = 0;
        while i < self.bodies.len()
            invariant
                self.wf(),
                i <= self.bodies@.len(),
                forall|j: int| 0 <= j < i ==> (#[trigger] self.bodies@[j]).handle != h,
            decreases self.bodies@.len() - i,
        {
            if self.bodies[i].handle == h {
                proof {
                    self.lemma_body_index_is(i as int);
                }
                return Some(i);
            }
            i = i + 1;
        }
        None
    }

    /// Index of the collider carrying `h`, if any.
    fn find_collider(&self, h: ColliderHandle) -> (r: Option<usize>)
        requires
            self.wf(),
        ensures
            match r {
                Some(i) => i < self.colliders@.len() && self.colliders@[i as int].handle == h
                    && self.collider_index(h) == i,
                None => !self.has_collider(h),
            },
    {
        let mut i: usize = 0;
        while i < self.colliders.len()
            invariant
                self.wf(),
                i <= self.colliders@.len(),
                forall|j: int| 0 <= j < i ==> (#[trigger] self.colliders@[j]).handle != h,
            decreases self.colliders@.len() - i,
        {
            if self.colliders[i].handle == h {
                proof {
                    self.lemma_collider_index_is(i as int);
                }
                return Some(i);
            }
            i = i + 1;
        }
        None
    }

    /// Create a body at `translation`, logging the creation for the engine.
    /// Returns the fresh handle.
    pub fn insert_body(
        &mut self,
        kind: BodyKind,
        translation: FxVec2,
        lock_rotations: bool,
        inv_mass: i64,
    ) -> (h: BodyHandle)
        requires
            old(self).wf(),
            fx2_in_bounds(translation),
            0 <= inv_mass <= FX_BOUND,
            old(self).next_body_handle < u64::MAX,
        ensures
            final(self).wf(),
            h == old(self).next_body_handle,
            final(self).next_body_handle == h + 1,
            final(self).bodies@ == old(self).bodies@.push(
                (RigidBodyState {
                    handle: h,
                    kind,
                    translation,
                    linvel: (FxVec2 { x: 0, y: 0 }),
                    angle: 0,
                    inv_mass,
                    lock_rotations,
                }),
            ),
            final(self).colliders == old(self).colliders,
            final(self).next_collider_handle == old(self).next_collider_handle,
            final(self).commands@ == old(self).commands@.push(
                (PhysCommand::CreateBody { handle: h, kind, translation, lock_rotations }),
            ),
            final(self).has_body(h),
    {
        let h = self.next_body_handle;
        let body = RigidBodyState {
            handle: h,
            kind,
            translation,
            linvel: FxVec2 { x: 0, y: 0 },
            angle: 0,
            inv_mass,
            lock_rotations,
        };
        self.bodies.push(body);
        self.commands.push(PhysCommand::CreateBody { handle: h, kind, translation, lock_rotations });
        self.next_body_handle = h + 1;
        proof {
            assert(self.bodies@[self.bodies@.len() - 1].handle == h);
        }
        h
    }

    /// Attach a collider to body `parent`, logging the creation.
    /// Returns the fresh collider handle.
    pub fn insert_collider_with_parent(
        &mut self,
        shape: ColliderShape,
        active_events: bool,
        friction: i64,
        parent: BodyHandle,
    ) -> (h: ColliderHandle)
        requires
            old(self).wf(),
            old(self).next_collider_handle < u64::MAX,
        ensures
            final(self).wf(),
            h == old(self).next_collider_handle,
            final(self).next_collider_handle == h + 1,
            final(self).colliders@ == old(self).colliders@.push(
                (ColliderState { handle: h, parent: Some(parent), shape, active_events, friction }),
            ),
            final(self).bodies == old(self).bodies,
            final(self).next_body_handle == old(self).next_body_handle,
            final(self).commands@ == old(self).commands@.push(
                (PhysCommand::CreateCollider { handle: h, parent, shape, active_events, friction }),
            ),
    {
        let h = self.next_collider_handle;
        self.colliders.push(ColliderState {
            handle: h,
            parent: Some(parent),
            shape,
            active_events,
            friction,
        });
        self.commands.push(PhysCommand::CreateCollider {
            handle: h,
            parent,
            shape,
            active_events,
            friction,
        });
        self.next_collider_handle = h + 1;
        h
    }

    /// Current translation of body `h`, if the model knows it.
    pub fn translation(&self, h: BodyHandle) -> (r: Option<FxVec2>)
        requires
            self.wf(),
        ensures
            r == if self.has_body(h) { Some(self.spec_body(h).translation) } else { Option::<FxVec2>::None },
    {
        match self.find_body(h) {
            Some(i) => Some(self.bodies[i].translation),
            None => None,
        }
    }

    /// Current linear velocity of body `h`, if the model knows it.
    pub fn linvel(&self, h: BodyHandle) -> (r: Option<FxVec2>)
        requires
            self.wf(),
        ensures
            r == if self.has_body(h) { Some(self.spec_body(h).linvel) } else { Option::<FxVec2>::None },
    {
        match self.find_body(h) {
            Some(i) => Some(self.bodies[i].linvel),
            None => None,
        }
    }

    /// Current rotation angle of body `h`, if the model knows it.
    pub fn rotation_angle(&self, h: BodyHandle) -> (r: Option<i64>)
        requires
            self.wf(),
        ensures
            r == if self.has_body(h) { Some(self.spec_body(h).angle) } else { Option::<i64>::None },
    {
        match self.find_body(h) {
            Some(i) => Some(self.bodies[i].angle),
            None => None,
        }
    }

    /// Parent body of collider `h`: `None` when the collider is unknown or
    /// parentless. A collision event whose collider resolves to `None` is
    /// dropped by the resolver.
    pub fn collider_parent(&self, h: ColliderHandle) -> (r: Option<BodyHandle>)
        requires
            self.wf(),
        ensures
            r == self.spec_collider_parent(h),
    {
        match self.find_collider(h) {
            Some(i) => self.colliders[i].parent,
            None => None,
        }
    }

    /// Parent body of collider `h`, or `None`.
    pub open spec fn spec_collider_parent(self, h: ColliderHandle) -> Option<BodyHandle> {
        if self.has_collider(h) {
            self.spec_collider(h).parent
        } else {
            None
        }
    }

    /// The velocity body `h` takes when the impulse `imp` hits it.
    pub open spec fn spec_vel_after_impulse(self, h: BodyHandle, imp: FxVec2) -> FxVec2 {
        let b = self.spec_body(h);
        FxVec2 {
            x: spec_sat(b.linvel.x + spec_fx_mul(imp.x as int, b.inv_mass as int)) as i64,
            y: spec_sat(b.linvel.y + spec_fx_mul(imp.y as int, b.inv_mass as int)) as i64,
        }
    }

    /// Apply the impulse `imp` to body `h`: its velocity gains
    /// `imp * inv_mass`, saturated to the world range, and the call is
    /// logged. Unknown handles are a no-op, the recoverable form of the
    /// engine's own fatal lookup.
    pub fn apply_impulse(&mut self, h: BodyHandle, imp: FxVec2)
        requires
            old(self).wf(),
            spec_abs(imp.x as int) <= 2 * FX_BOUND,
            spec_abs(imp.y as int) <= 2 * FX_BOUND,
        ensures
            final(self).wf(),
            old(self).has_body(h) ==> final(self).bodies@ == old(self).bodies@.update(
                old(self).body_index(h),
                (RigidBodyState {
                    linvel: old(self).spec_vel_after_impulse(h, imp),
                    ..old(self).spec_body(h)
                }),
            ) && final(self).commands@ == old(self).commands@.push(
                (PhysCommand::ApplyImpulse { handle: h, impulse: imp }),
            ),
            !old(self).has_body(h) ==> *final(self) == *old(self),
            final(self).colliders == old(self).colliders,
            final(self).next_body_handle == old(self).next_body_handle,
            final(self).next_collider_handle == old(self).next_collider_handle,
    {
        match self.find_body(h) {
            Some(i) => {
                let b = self.bodies[i];
                let nv = FxVec2 {
                    x: sat_add(b.linvel.x, fx_mul(imp.x, b.inv_mass)),
                    y: sat_add(b.linvel.y, fx_mul(imp.y, b.inv_mass)),
                };
                let nb = RigidBodyState { linvel: nv, ..b };
                self.bodies[i] = nb;
                self.commands.push(PhysCommand::ApplyImpulse { handle: h, impulse: imp });
            },
            None => {},
        }
    }

    /// Set the linear velocity of body `h` outright, logging the call.
    /// Unknown handles are a no-op.
    pub fn set_linvel(&mut self, h: BodyHandle, v: FxVec2)
        requires
            old(self).wf(),
            fx2_in_bounds(v),
        ensures
            final(self).wf(),
            old(self).has_body(h) ==> final(self).bodies@ == old(self).bodies@.update(
                old(self).body_index(h),
                (RigidBodyState { linvel: v, ..old(self).spec_body(h) }),
            ) && final(self).commands@ == old(self).commands@.push(
                (PhysCommand::SetLinvel { handle: h, linvel: v }),
            ),
            !old(self).has_body(h) ==> *final(self) == *old(self),
            final(self).colliders == old(self).colliders,
            final(self).next_body_handle == old(self).next_body_handle,
            final(self).next_collider_handle == old(self).next_collider_handle,
    {
        match self.find_body(h) {
            Some(i) => {
                let b = self.bodies[i];
                let nb = RigidBodyState { linvel: v, ..b };
                self.bodies[i] = nb;
                self.commands.push(PhysCommand::SetLinvel { handle: h, linvel: v });
            },
            None => {},
        }
    }

    /// Write the pose the engine computed for body `h` back into the model,
    /// saturating each quantity into the world range. Not logged: the engine
    /// is the source of this data. Unknown handles are a no-op.
    pub fn sync_body(&mut self, h: BodyHandle, tx: i64, ty: i64, vx: i64, vy: i64, angle: i64)
        requires
            old(self).wf(),
        ensures
            final(self).wf(),
            old(self).has_body(h) ==> final(self).bodies@ == old(self).bodies@.update(
                old(self).body_index(h),
                (RigidBodyState {
                    translation: (FxVec2 { x: spec_sat(tx as int) as i64, y: spec_sat(ty as int) as i64 }),
                    linvel: (FxVec2 { x: spec_sat(vx as int) as i64, y: spec_sat(vy as int) as i64 }),
                    angle: spec_sat(angle as int) as i64,
                    ..old(self).spec_body(h)
                }),
            ),
            !old(self).has_body(h) ==> final(self).bodies == old(self).bodies,
            final(self).colliders == old(self).colliders,
            final(self).commands == old(self).commands,
            final(self).next_body_handle == old(self).next_body_handle,
            final(self).next_collider_handle == old(self).next_collider_handle,
    {
        match self.find_body(h) {
            Some(i) => {
                let b = self.bodies[i];
                let nb = RigidBodyState {
                    translation: FxVec2 { x: sat_i64(tx), y: sat_i64(ty) },
                    linvel: FxVec2 { x: sat_i64(vx), y: sat_i64(vy) },
                    angle: sat_i64(angle),
                    ..b
                };
                self.bodies[i] = nb;
            },
            None => {},
        }
    }

    /// Hand the pending command log to the outer layer, leaving it empty.
    pub fn take_commands(&mut self) -> (r: Vec<PhysCommand>)
        ensures
            r@ == old(self).commands@,
            final(self).commands@.len() == 0,
            final(self).bodies == old(self).bodies,
            final(self).colliders == old(self).colliders,
            final(self).next_body_handle == old(self).next_body_handle,
            final(self).next_collider_handle == old(self).next_collider_handle,
            old(self).wf() ==> final(self).wf(),
    {
        let mut out: Vec<PhysCommand> = Vec::new();
        core::mem::swap(&mut out, &mut self.commands);
        out
    }
}

} // verus!
