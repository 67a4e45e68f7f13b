//! Per-frame orchestration: the frame context handed to every behavior,
//! the collision resolver, and the frame step that ties input, physics,
//! camera, dispatch, drawing and deferred structural mutation together.

use vstd::prelude::*;
use crate::fxmath::{fx_in_bounds, spec_abs, FX_BOUND, FX_ONE, FX_TIME_BOUND, FxVec3};
use crate::input::InputState;
use crate::physics::{PhysicsWorld, BodyHandle, ColliderHandle};
use crate::entity::{GameObject, GameObjectID};
use crate::store::GameObjectStore;
use crate::camera::{CameraParams, camera_controller};
use crate::behaviors::{apply_behaviors, apply_collision_behaviors};

verus! {

/// Symbolic names of the loadable mesh models.
#[derive(PartialEq, Eq, Structural, Hash, Copy, Clone, Debug)]
pub enum ModelName {
    Cone,
    Cube,
    ConeRing,
    Plane,
    Ball,
}

/// The bounded context a behavior update runs in: input, timing, the
/// mesh-name registry and the set of floor bodies. The physics model, the
/// camera and the entity store are passed alongside it.
pub struct LoopContext {
    pub keys_held: InputState,
    /// Mouse movement this frame, fixed-point.
    pub mouse_deltas: (i64, i64),
    /// Frame delta time, fixed-point seconds.
    pub deltasecs: i64,
    /// Elapsed game time, fixed-point seconds.
    pub game_time: i64,
    /// Mesh-name registry: resolves a model name to a loaded-mesh index.
    pub model_map: Vec<(ModelName, usize)>,
    /// Body handles of entities that count as floor for ground contact.
    pub floor_set: Vec<BodyHandle>,
}

impl LoopContext {
    /// Timing values are non-negative and in range, the mouse delta is in
    /// the world range, and the registry holds one entry per name.
    pub open spec fn wf(self) -> bool {
        &&& 0 <= self.deltasecs <= FX_BOUND
        &&& 0 <= self.game_time <= FX_TIME_BOUND
        &&& fx_in_bounds(self.mouse_deltas.0 as int)
        &&& fx_in_bounds(self.mouse_deltas.1 as int)
        &&& forall|i: int, j: int|
            0 <= i < self.model_map@.len() && 0 <= j < self.model_map@.len() && i != j
                ==> (#[trigger] self.model_map@[i]).0 != (#[trigger] self.model_map@[j]).0
    }

    /// Whether the registry resolves `name`.
    pub open spec fn spec_model_has(self, name: ModelName) -> bool {
        exists|i: int| 0 <= i < self.model_map@.len() && (#[trigger] self.model_map@[i]).0 == name
    }

    /// Index of the registry entry for `name`; under `wf` it is unique.
    pub open spec fn spec_model_entry(self, name: ModelName) -> int {
        choose|i: int| 0 <= i < self.model_map@.len() && (#[trigger] self.model_map@[i]).0 == name
    }

    /// The loaded-mesh index the registry gives for `name`.
    pub open spec fn spec_model_idx(self, name: ModelName) -> usize {
        self.model_map@[self.spec_model_entry(name)].1
    }

    /// Under `wf`, the entry at `i` is the one its name resolves to.
    pub proof fn lemma_model_entry_is(self, i: int)
        requires
            self.wf(),
            0 <= i < self.model_map@.len(),
        ensures
            self.spec_model_entry(self.model_map@[i].0) == i,
            self.spec_model_has(self.model_map@[i].0),
    {
        let name = self.model_map@[i].0;
        assert(self.spec_model_has(name));
        let j = self.spec_model_entry(name);
        assert(0 <= j < self.model_map@.len() && self.model_map@[j].0 == name);
        if i != j {
            assert(self.model_map@[i].0 != self.model_map@[j].0);
        }
    }

    /// Resolve a model name to its loaded-mesh index. An unresolvable name
    /// is a configuration fault surfaced at scene setup; a per-frame caller
    /// treats `None` as a silent no-op.
    pub fn model_lookup(&self, name: ModelName) -> (r: Option<usize>)
        requires
            self.wf(),
        ensures
            r == if self.spec_model_has(name) {
                Some(self.spec_model_idx(name))
            } else {
                Option::<usize>::None
            },
    {
        let mut i: usize = 0;
        while i < self.model_map.len()
            invariant
                self.wf(),
                i <= self.model_map@.len(),
                forall|j: int| 0 <= j < i ==> (#[trigger] self.model_map@[j]).0 != name,
            decreases self.model_map@.len() - i,
        {
            if self.model_map[i].0 == name {
                proof {
                    self.lemma_model_entry_is(i as int);
                }
                return Some(self.model_map[i].1);
            }
            i = i + 1;
        }
        None
    }

    /// Whether `h` is one of the designated floor bodies.
    pub open spec fn spec_floor_contains(self, h: BodyHandle) -> bool {
        exists|i: int| 0 <= i < self.floor_set@.len() && self.floor_set@[i] == h
    }

    /// Membership test against the floor-handle set.
    pub fn floor_contains(&self, h: BodyHandle) -> (r: bool)
        ensures
            r == self.spec_floor_contains(h),
    {
        let mut i: usize = 0;
        while i < self.floor_set.len()
            invariant
                i <= self.floor_set@.len(),
                forall|j: int| 0 <= j < i ==> self.floor_set@[j] != h,
            decreases self.floor_set@.len() - i,
        {
            if self.floor_set[i] == h {
                return true;
            }
            i = i + 1;
        }
        false
    }
}

/// One draw request: the entity's world transform, the drawable's visual
/// offset transform, and which mesh group to draw. The renderer outside
/// composes the matrices.
#[derive(PartialEq, Eq, Structural, Copy, Clone, Debug)]
pub struct DrawCall {
    pub position: FxVec3,
    pub rotation: FxVec3,
    pub scale: FxVec3,
    pub model_position: FxVec3,
    pub model_rotation: FxVec3,
    pub model_scale: FxVec3,
    pub drawable_group_idx: usize,
}

/// The draw request a drawable entity produces.
pub open spec fn spec_draw_of(go: GameObject) -> DrawCall
    recommends go.drawable_object is Some,
{
    DrawCall {
        position: go.position,
        rotation: go.rotation,
        scale: go.scale,
        model_position: go.drawable_object->0.position,
        model_rotation: go.drawable_object->0.rotation,
        model_scale: go.drawable_object->0.scale,
        drawable_group_idx: go.drawable_object->0.drawable_group_idx,
    }
}

/// How many of these entities carry a drawable.
pub open spec fn spec_count_drawable(s: Seq<GameObject>) -> int
    decreases s.len(),
{
    if s.len() == 0 {
        0
    } else {
        spec_count_drawable(s.drop_last()) + if s.last().drawable_object is Some { 1int } else { 0 }
    }
}

/// Parent body of a collider, resolved through the physics model: `None`
/// when the collider is unknown or parentless, and such an event is
/// dropped by the resolver.
pub fn get_rb_handle_from_collision_handle(
    collider_set: &PhysicsWorld,
    collider_handle: &ColliderHandle,
) -> (r: Option<BodyHandle>)
    requires
        collider_set.wf(),
    ensures
        r == collider_set.spec_collider_parent(*collider_handle),
{
    collider_set.collider_parent(*collider_handle)
}

/// The symmetric adjacency built from one frame's collision events: for
/// each body handle, the handles it newly touched.
pub type CollisionMap = Vec<(BodyHandle, Vec<BodyHandle>)>;

/// `b` stands in `a`'s adjacency list.
pub open spec fn spec_adj_contains(
    m: Seq<(BodyHandle, Vec<BodyHandle>)>,
    a: BodyHandle,
    b: BodyHandle,
) -> bool {
    exists|k: int|
        0 <= k < m.len() && (#[trigger] m[k]).0 == a && exists|j: int|
            0 <= j < m[k].1@.len() && m[k].1@[j] == b
}

/// The map holds an entry keyed by `a`.
pub open spec fn spec_adj_has_key(m: Seq<(BodyHandle, Vec<BodyHandle>)>, a: BodyHandle) -> bool {
    exists|k: int| 0 <= k < m.len() && (#[trigger] m[k]).0 == a
}

/// Keys of the map are pairwise distinct.
pub open spec fn spec_adj_keys_unique(m: Seq<(BodyHandle, Vec<BodyHandle>)>) -> bool {
    forall|k1: int, k2: int|
        0 <= k1 < m.len() && 0 <= k2 < m.len() && k1 != k2 ==> (#[trigger] m[k1]).0 != (
        #[trigger] m[k2]).0
}

/// Append `b` to `a`'s adjacency list, creating the entry if `a` is new.
fn push_adj(m: &mut CollisionMap, a: BodyHandle, b: BodyHandle)
    requires
        spec_adj_keys_unique(old(m)@),
    ensures
        spec_adj_keys_unique(final(m)@),
        spec_adj_contains(final(m)@, a, b),
        forall|x: BodyHandle, y: BodyHandle|
            spec_adj_contains(old(m)@, x, y) ==> spec_adj_contains(final(m)@, x, y),
        forall|x: BodyHandle, y: BodyHandle|
            spec_adj_contains(final(m)@, x, y) ==> spec_adj_contains(old(m)@, x, y) || (x == a && y
                == b),
        forall|x: BodyHandle|
            spec_adj_has_key(final(m)@, x) == (spec_adj_has_key(old(m)@, x) || x == a),
{
    let ghost pre = m@;
    let mut k: usize = 0;
    let n = m.len();
    while k < n
        invariant
            n == m@.len(),
            m@ == pre,
            pre == old(m)@,
            spec_adj_keys_unique(pre),
            k <= n,
            forall|j: int| 0 <= j < k ==> (#[trigger] m@[j]).0 != a,
        decreases n - k,
    {
        if m[k].0 == a {
            let mut entry = m.remove(k);
            entry.1.push(b);
            let ghost newentry = entry;
            m.insert(k, entry);
            proof {
                assert(m@ =~= pre.update(k as int, newentry));
                assert(m@[k as int].0 == a);
                assert(m@[k as int].1@[m@[k as int].1@.len() - 1] == b);
                assert(spec_adj_contains(m@, a, b));
                assert(forall|j: int| 0 <= j < m@.len() ==> (#[trigger] m@[j]).0 == pre[j].0);
                assert forall|x: BodyHandle|
                    spec_adj_has_key(m@, x) == (spec_adj_has_key(pre, x) || x == a) by {
                    if spec_adj_has_key(pre, x) {
                        let k2 = choose|k2: int| 0 <= k2 < pre.len() && (#[trigger] pre[k2]).0 == x;
                        assert(m@[k2].0 == x);
                    }
                    if spec_adj_has_key(m@, x) {
                        let k2 = choose|k2: int| 0 <= k2 < m@.len() && (#[trigger] m@[k2]).0 == x;
                        assert(pre[k2].0 == x);
                    }
                    assert(pre[k as int].0 == a);
                };
                assert forall|x: BodyHandle, y: BodyHandle|
                    spec_adj_contains(pre, x, y) implies spec_adj_contains(m@, x, y) by {
                    let k2 = choose|k2: int|
                        0 <= k2 < pre.len() && (#[trigger] pre[k2]).0 == x && exists|j: int|
                            0 <= j < pre[k2].1@.len() && pre[k2].1@[j] == y;
                    let j2 = choose|j2: int| 0 <= j2 < pre[k2].1@.len() && pre[k2].1@[j2] == y;
                    assert(0 <= k2 < m@.len() && m@[k2].0 == x && 0 <= j2 < m@[k2].1@.len()
                        && m@[k2].1@[j2] == y);
                };
                assert forall|x: BodyHandle, y: BodyHandle|
                    spec_adj_contains(m@, x, y) implies spec_adj_contains(pre, x, y) || (x == a && y
                    == b) by {
                    let k2 = choose|k2: int|
                        0 <= k2 < m@.len() && (#[trigger] m@[k2]).0 == x && exists|j: int|
                            0 <= j < m@[k2].1@.len() && m@[k2].1@[j] == y;
                    let j2 = choose|j2: int| 0 <= j2 < m@[k2].1@.len() && m@[k2].1@[j2] == y;
                    if k2 == k as int && j2 == pre[k2].1@.len() {
                        assert(x == a && y == b);
                    } else {
                        assert(0 <= k2 < pre.len() && pre[k2].0 == x && 0 <= j2
                            < pre[k2].1@.len() && pre[k2].1@[j2] == y);
                    }
                };
            }
            return;
        }
        k = k + 1;
    }
    let mut list: Vec<BodyHandle> = Vec::new();
    list.push(b);
    let ghost newentry = (a, list);
    m.push((a, list));
    proof {
        assert(m@ =~= pre.push((a, newentry.1)));
        assert(m@[pre.len() as int].0 == a);
        assert(m@[pre.len() as int].1@[0] == b);
        assert(spec_adj_contains(m@, a, b));
        assert forall|x: BodyHandle|
            spec_adj_has_key(m@, x) == (spec_adj_has_key(pre, x) || x == a) by {
            if spec_adj_has_key(pre, x) {
                let k2 = choose|k2: int| 0 <= k2 < pre.len() && (#[trigger] pre[k2]).0 == x;
                assert(m@[k2].0 == x);
            }
            if spec_adj_has_key(m@, x) {
                let k2 = choose|k2: int| 0 <= k2 < m@.len() && (#[trigger] m@[k2]).0 == x;
                if k2 < pre.len() {
                    assert(pre[k2].0 == x);
                }
            }
            assert(m@[pre.len() as int].0 == a);
        };
        assert forall|x: BodyHandle, y: BodyHandle|
            spec_adj_contains(pre, x, y) implies spec_adj_contains(m@, x, y) by {
            let k2 = choose|k2: int|
                0 <= k2 < pre.len() && (#[trigger] pre[k2]).0 == x && exists|j: int|
                    0 <= j < pre[k2].1@.len() && pre[k2].1@[j] == y;
            let j2 = choose|j2: int| 0 <= j2 < pre[k2].1@.len() && pre[k2].1@[j2] == y;
            assert(0 <= k2 < m@.len() && m@[k2].0 == x && 0 <= j2 < m@[k2].1@.len()
                && m@[k2].1@[j2] == y);
        };
        assert forall|x: BodyHandle, y: BodyHandle|
            spec_adj_contains(m@, x, y) implies spec_adj_contains(pre, x, y) || (x == a && y
            == b) by {
            let k2 = choose|k2: int|
                0 <= k2 < m@.len() && (#[trigger] m@[k2]).0 == x && exists|j: int|
                    0 <= j < m@[k2].1@.len() && m@[k2].1@[j] == y;
            let j2 = choose|j2: int| 0 <= j2 < m@[k2].1@.len() && m@[k2].1@[j2] == y;
            if k2 < pre.len() {
                assert(0 <= k2 < pre.len() && pre[k2].0 == x && 0 <= j2 < pre[k2].1@.len()
                    && pre[k2].1@[j2] == y);
            } else {
                assert(x == a && y == b);
            }
        };
    }
}

/// Both colliders of the event resolve to parent bodies, one of them `h`.
pub open spec fn spec_event_touches(
    phys: PhysicsWorld,
    ev: (ColliderHandle, ColliderHandle),
    h: BodyHandle,
) -> bool {
    &&& phys.spec_collider_parent(ev.0) is Some
    &&& phys.spec_collider_parent(ev.1) is Some
    &&& (phys.spec_collider_parent(ev.0) == Some(h) || phys.spec_collider_parent(ev.1) == Some(h))
}

/// Some event of the frame resolves to body `h` on either side.
pub open spec fn spec_handle_in_contact(
    phys: PhysicsWorld,
    events: Seq<(ColliderHandle, ColliderHandle)>,
    h: BodyHandle,
) -> bool {
    exists|e: int| 0 <= e < events.len() && spec_event_touches(phys, #[trigger] events[e], h)
}

/// Collision resolver: turns the frame's raw collision-start events —
/// collider-handle pairs — into a symmetric body-handle adjacency map.
/// An event either of whose colliders has no parent body is dropped.
/// Every resolvable event is recorded in both directions, and nothing
/// stands in the map that no event put there.
pub fn resolve_collisions(
    rigid_body_set: &PhysicsWorld,
    collision_events: &Vec<(ColliderHandle, ColliderHandle)>,
) -> (m: CollisionMap)
    requires
        rigid_body_set.wf(),
    ensures
        spec_adj_keys_unique(m@),
        forall|e: int|
            0 <= e < collision_events@.len() ==> (match (
                rigid_body_set.spec_collider_parent((#[trigger] collision_events@[e]).0),
                rigid_body_set.spec_collider_parent(collision_events@[e].1),
            ) {
                (Some(b1), Some(b2)) => spec_adj_contains(m@, b1, b2) && spec_adj_contains(
                    m@,
                    b2,
                    b1,
                ),
                _ => true,
            }),
        forall|x: BodyHandle, y: BodyHandle|
            #[trigger] spec_adj_contains(m@, x, y) ==> spec_handle_in_contact(
                *rigid_body_set,
                collision_events@,
                x,
            ) && spec_handle_in_contact(*rigid_body_set, collision_events@, y),
{
    let mut m: CollisionMap = Vec::new();
    let mut e: usize = 0;
    while e < collision_events.len()
        invariant
            e <= collision_events@.len(),
            rigid_body_set.wf(),
            spec_adj_keys_unique(m@),
            forall|e2: int|
                0 <= e2 < e ==> (match (
                    rigid_body_set.spec_collider_parent((#[trigger] collision_events@[e2]).0),
                    rigid_body_set.spec_collider_parent(collision_events@[e2].1),
                ) {
                    (Some(b1), Some(b2)) => spec_adj_contains(m@, b1, b2) && spec_adj_contains(
                        m@,
                        b2,
                        b1,
                    ),
                    _ => true,
                }),
            forall|x: BodyHandle, y: BodyHandle|
                #[trigger] spec_adj_contains(m@, x, y) ==> spec_handle_in_contact(
                    *rigid_body_set,
                    collision_events@,
                    x,
                ) && spec_handle_in_contact(*rigid_body_set, collision_events@, y),
        decreases collision_events@.len() - e,
    {
        let ev = collision_events[e];
        let col1_rb = get_rb_handle_from_collision_handle(rigid_body_set, &ev.0);
        let col2_rb = get_rb_handle_from_collision_handle(rigid_body_set, &ev.1);
        if let Some(b1) = col1_rb {
            if let Some(b2) = col2_rb {
                proof {
                    assert(spec_event_touches(*rigid_body_set, collision_events@[e as int], b1));
                    assert(spec_event_touches(*rigid_body_set, collision_events@[e as int], b2));
                }
                push_adj(&mut m, b1, b2);
                push_adj(&mut m, b2, b1);
            }
        }
        e = e + 1;
    }
    m
}

/// Every draw request stems from a drawable entity among the first `n`,
/// in its post-update state.
pub open spec fn spec_draw_from(d: DrawCall, objects: Seq<GameObject>, n: int) -> bool {
    exists|j2: int|
        0 <= j2 < n && (#[trigger] objects[j2]).drawable_object is Some && d == spec_draw_of(
            objects[j2],
        )
}

pub open spec fn spec_draws_match(draws: Seq<DrawCall>, objects: Seq<GameObject>, n: int) -> bool {
    forall|j: int| 0 <= j < draws.len() ==> spec_draw_from(#[trigger] draws[j], objects, n)
}

/// A per-draw witness mapping establishes the correspondence.
pub proof fn lemma_draws_match_intro(
    draws: Seq<DrawCall>,
    objects: Seq<GameObject>,
    n: int,
    src: Seq<int>,
)
    requires
        src.len() == draws.len(),
        forall|j: int|
            0 <= j < draws.len() ==> 0 <= #[trigger] src[j] < n && objects[src[j]].drawable_object
                is Some && draws[j] == spec_draw_of(objects[src[j]]),
    ensures
        spec_draws_match(draws, objects, n),
{
    assert forall|j: int| 0 <= j < draws.len() implies spec_draw_from(
        #[trigger] draws[j],
        objects,
        n,
    ) by {
        let j2 = src[j];
        assert(0 <= j2 < n && objects[j2].drawable_object is Some && draws[j] == spec_draw_of(
            objects[j2],
        ));
    };
}

/// Every handle the store's reverse map knows has a body in the model:
/// the two never desynchronize.
pub open spec fn spec_store_phys_consistent(store: GameObjectStore, phys: PhysicsWorld) -> bool {
    forall|k: int|
        0 <= k < store.body_to_id@.len() ==> phys.has_body((#[trigger] store.body_to_id@[k]).0)
}

/// Index of the adjacency entry keyed by `h`, if any.
fn adj_find(m: &CollisionMap, h: BodyHandle) -> (r: Option<usize>)
    ensures
        (match r {
            Some(k) => k < m@.len() && m@[k as int].0 == h,
            None => !spec_adj_has_key(m@, h),
        }),
{
    let mut k: usize = 0;
    while k < m.len()
        invariant
            k <= m@.len(),
            forall|j: int| 0 <= j < k ==> (#[trigger] m@[j]).0 != h,
        decreases m@.len() - k,
    {
        if m[k].0 == h {
            return Some(k);
        }
        k = k + 1;
    }
    None
}

/// One frame of the simulation, after the engine has stepped and its poses
/// have been synced into the model: resolve the frame's collision events
/// into a body adjacency map, update the free-look camera, then visit every
/// entity — sync its transform from its body, run its collision behaviors
/// against each adjacent other entity, run its behaviors, and collect its
/// draw request — and finally apply the collected removals and additions to
/// the store, removals first. Structural mutation never happens while
/// entities are being visited, identities stay stable, the body-handle map
/// stays in step with the model, and `grounded` survives a frame only for
/// an entity that was grounded before or had a collision event this step.
#[verifier::rlimit(100)]
pub fn run_frame(
    game_obj_store: &mut GameObjectStore,
    rigid_body_set: &mut PhysicsWorld,
    camera: &mut CameraParams,
    loop_ctx: &LoopContext,
    collision_events: &Vec<(ColliderHandle, ColliderHandle)>,
    look_dir: FxVec3,
    speed: i64,
) -> (draws: Vec<DrawCall>)
    requires
        old(game_obj_store).wf(),
        old(rigid_body_set).wf(),
        old(camera).wf(),
        loop_ctx.wf(),
        spec_store_phys_consistent(*old(game_obj_store), *old(rigid_body_set)),
        0 <= speed <= FX_BOUND / 2,
        spec_abs(look_dir.x as int) <= 10 * FX_ONE,
        spec_abs(look_dir.y as int) <= 10 * FX_ONE,
        spec_abs(look_dir.z as int) <= 10 * FX_ONE,
        old(game_obj_store).counter + old(game_obj_store).objects@.len() < usize::MAX,
        old(rigid_body_set).next_body_handle + old(game_obj_store).objects@.len() < u64::MAX - 1,
        old(rigid_body_set).next_collider_handle + old(game_obj_store).objects@.len() < u64::MAX
            - 1,
    ensures
        final(game_obj_store).wf(),
        final(rigid_body_set).wf(),
        final(camera).wf(),
        spec_store_phys_consistent(*final(game_obj_store), *final(rigid_body_set)),
        final(game_obj_store).counter >= old(game_obj_store).counter,
        old(game_obj_store).issued@.subset_of(final(game_obj_store).issued@),
        // no entity is removed this frame: the catalog never requests it
        final(game_obj_store).objects@.len() >= old(game_obj_store).objects@.len(),
        // survivors keep their place, identity and binding
        forall|j: int|
            0 <= j < old(game_obj_store).objects@.len() ==> (
            #[trigger] final(game_obj_store).objects@[j]).id == old(
                game_obj_store,
            ).objects@[j].id && final(game_obj_store).objects@[j].rigid_body_handle == old(
                game_obj_store,
            ).objects@[j].rigid_body_handle,
        // entities beyond the old length are new, under fresh identities
        forall|j: int|
            old(game_obj_store).objects@.len() <= j < final(game_obj_store).objects@.len() ==> (
            #[trigger] final(game_obj_store).objects@[j]).id > old(game_obj_store).counter,
        // grounded is never sticky: it survives the frame only for an
        // entity grounded before, or one a collision event touched
        forall|j: int|
            0 <= j < old(game_obj_store).objects@.len() && (
            #[trigger] final(game_obj_store).objects@[j]).grounded ==> old(
                game_obj_store,
            ).objects@[j].grounded || (old(game_obj_store).objects@[j].rigid_body_handle
                matches Some(hh) && spec_handle_in_contact(
                *old(rigid_body_set),
                collision_events@,
                hh,
            )),
        // one draw request per drawable entity, from its post-update state
        draws@.len() == spec_count_drawable(old(game_obj_store).objects@),
        spec_draws_match(
            draws@,
            final(game_obj_store).objects@,
            old(game_obj_store).objects@.len() as int,
        ),
        old(rigid_body_set).commands@.is_prefix_of(final(rigid_body_set).commands@),
{
    let ghost pre_store = *old(game_obj_store);
    let ghost pre_phys = *old(rigid_body_set);
    let m = resolve_collisions(rigid_body_set, collision_events);
    let update_view = camera_controller(
        &loop_ctx.keys_held,
        loop_ctx.mouse_deltas,
        camera,
        speed,
        look_dir,
    );
    let mut objs_to_remove: Vec<GameObjectID> = Vec::new();
    let mut objs_to_add: Vec<GameObject> = Vec::new();
    let mut draws: Vec<DrawCall> = Vec::new();
    let ghost mut draw_src: Seq<int> = Seq::empty();
    let n = game_obj_store.objects.len();
    let mut i: usize = 0;
    proof {
        assert(pre_store.objects@.subrange(0, 0) =~= Seq::<GameObject>::empty());
    }
    while i < n
        invariant
            i <= n,
            n == game_obj_store.objects@.len(),
            n == pre_store.objects@.len(),
            pre_store.wf(),
            pre_phys.wf(),
            loop_ctx.wf(),
            game_obj_store.wf(),
            rigid_body_set.wf(),
            camera.wf(),
            game_obj_store.body_to_id == pre_store.body_to_id,
            game_obj_store.counter == pre_store.counter,
            game_obj_store.issued == pre_store.issued,
            spec_store_phys_consistent(pre_store, pre_phys),
            spec_store_phys_consistent(*game_obj_store, *rigid_body_set),
            objs_to_add@.len() <= i,
            pre_store.counter + n < usize::MAX,
            pre_phys.next_body_handle + n < u64::MAX - 1,
            pre_phys.next_collider_handle + n < u64::MAX - 1,
            pre_phys.next_body_handle <= rigid_body_set.next_body_handle <= pre_phys.next_body_handle + i,
            pre_phys.next_collider_handle <= rigid_body_set.next_collider_handle
                <= pre_phys.next_collider_handle + i,
            rigid_body_set.bodies@.len() >= pre_phys.bodies@.len(),
            forall|j: int|
                0 <= j < pre_phys.bodies@.len() ==> (#[trigger] rigid_body_set.bodies@[j]).handle
                    == pre_phys.bodies@[j].handle,
            pre_phys.commands@.is_prefix_of(rigid_body_set.commands@),
            forall|j: int|
                i <= j < n ==> (#[trigger] game_obj_store.objects@[j]) == pre_store.objects@[j],
            forall|j: int|
                0 <= j < i ==> (#[trigger] game_obj_store.objects@[j]).id
                    == pre_store.objects@[j].id && game_obj_store.objects@[j].rigid_body_handle
                    == pre_store.objects@[j].rigid_body_handle,
            forall|j: int|
                0 <= j < i && (#[trigger] game_obj_store.objects@[j]).grounded
                    ==> pre_store.objects@[j].grounded || (
                pre_store.objects@[j].rigid_body_handle matches Some(hh)
                    && spec_handle_in_contact(pre_phys, collision_events@, hh)),
            forall|x: BodyHandle, y: BodyHandle|
                #[trigger] spec_adj_contains(m@, x, y) ==> spec_handle_in_contact(
                    pre_phys,
                    collision_events@,
                    x,
                ),
            objs_to_remove@.len() == 0,
            forall|e: int|
                0 <= e < objs_to_add@.len() ==> (#[trigger] objs_to_add@[e]).wf()
                    && objs_to_add@[e].id == 0 && objs_to_add@[e].rigid_body_handle is Some,
            forall|e: int|
                0 <= e < objs_to_add@.len() ==> pre_phys.next_body_handle <= (
                #[trigger] objs_to_add@[e]).rigid_body_handle->0
                    < rigid_body_set.next_body_handle && rigid_body_set.has_body(
                    objs_to_add@[e].rigid_body_handle->0,
                ),
            forall|e1: int, e2: int|
                0 <= e1 < e2 < objs_to_add@.len() ==> (
                #[trigger] objs_to_add@[e1]).rigid_body_handle->0 < (
                #[trigger] objs_to_add@[e2]).rigid_body_handle->0,
            draws@.len() == spec_count_drawable(pre_store.objects@.subrange(0, i as int)),
            draw_src.len() == draws@.len(),
            forall|j: int|
                0 <= j < draws@.len() ==> 0 <= #[trigger] draw_src[j] < i
                    && game_obj_store.objects@[draw_src[j]].drawable_object is Some && draws@[j]
                    == spec_draw_of(game_obj_store.objects@[draw_src[j]]),
        decreases n - i,
    {
        let ghost entity0 = pre_store.objects@[i as int];
        let ghost store_head = *game_obj_store;
        let ghost draws_head = draws@;
        let current_id = game_obj_store.objects[i].id;
        let current_handle = game_obj_store.objects[i].rigid_body_handle;
        let mut obj = GameObject::empty();
        obj.id = current_id;
        obj.rigid_body_handle = current_handle;
        game_obj_store.swap_at(i, &mut obj);
        proof {
            assert(obj == entity0);
        }
        obj.physic_update(rigid_body_set);
        let ghost store_mid = *game_obj_store;
        if let Some(h) = obj.rigid_body_handle {
            if let Some(k) = adj_find(&m, h) {
                let adj_len = m[k].1.len();
                let mut t: usize = 0;
                while t < adj_len
                    invariant
                        t <= adj_len,
                        k < m@.len(),
                        m@[k as int].0 == h,
                        adj_len == m@[k as int].1@.len(),
                        loop_ctx.wf(),
                        game_obj_store.wf(),
                        rigid_body_set.wf(),
                        obj.wf(),
                        obj == (GameObject {
                            grounded: obj.grounded,
                            position: obj.position,
                            rotation: obj.rotation,
                            ..entity0
                        }),
                        obj.rigid_body_handle == Some(h),
                        obj.grounded ==> entity0.grounded || spec_handle_in_contact(
                            pre_phys,
                            collision_events@,
                            h,
                        ),
                        forall|x: BodyHandle, y: BodyHandle|
                            #[trigger] spec_adj_contains(m@, x, y) ==> spec_handle_in_contact(
                                pre_phys,
                                collision_events@,
                                x,
                            ),
                        objs_to_remove@.len() == 0,
                    decreases adj_len - t,
                {
                    let other_h = m[k].1[t];
                    match game_obj_store.lookup_by_rb_handle(&other_h) {
                        Some(other_go_id) => {
                            if other_go_id != current_id {
                                if let Some(other) = game_obj_store.get(other_go_id) {
                                    let ghost obj_before = obj;
                                    let (mut to_remove, mut to_add) = apply_collision_behaviors(
                                        &mut obj,
                                        other,
                                        loop_ctx,
                                        rigid_body_set,
                                    );
                                    objs_to_remove.append(&mut to_remove);
                                    proof {
                                        if obj.grounded && !obj_before.grounded {
                                            assert(spec_adj_contains(m@, h, other_h)) by {
                                                assert(m@[k as int].0 == h);
                                                assert(m@[k as int].1@[t as int] == other_h);
                                            }
                                        }
                                    }
                                }
                            }
                        },
                        None => {},
                    }
                    t = t + 1;
                }
            }
        }
        let ghost obj_mid = obj;
        let ghost phys_mid = *rigid_body_set;
        let (mut to_remove2, mut to_add2) = apply_behaviors(
            &mut obj,
            loop_ctx,
            rigid_body_set,
            camera,
            game_obj_store,
        );
        objs_to_remove.append(&mut to_remove2);
        let ghost added = to_add2@;
        objs_to_add.append(&mut to_add2);
        proof {
            // the freshly spawned ball, if any, carries a fresh live handle
            if added.len() > 0 {
                assert(added.len() == 1);
                assert(added[0].rigid_body_handle == Some(phys_mid.next_body_handle));
                assert(rigid_body_set.bodies@[phys_mid.bodies@.len() as int].handle
                    == phys_mid.next_body_handle);
                assert(rigid_body_set.has_body(phys_mid.next_body_handle));
            }
            assert(pre_phys.commands@.is_prefix_of(rigid_body_set.commands@)) by {
                assert(rigid_body_set.commands@.subrange(0, pre_phys.commands@.len() as int)
                    =~= pre_phys.commands@);
            }
            // bodies only grow, so the reverse map and the handles of
            // entities collected earlier keep resolving
            assert forall|k2: int| 0 <= k2 < game_obj_store.body_to_id@.len()
                implies rigid_body_set.has_body(
                (#[trigger] game_obj_store.body_to_id@[k2]).0,
            ) by {
                let h2 = game_obj_store.body_to_id@[k2].0;
                assert(pre_phys.has_body(h2));
                let j2 = choose|j2: int|
                    0 <= j2 < pre_phys.bodies@.len() && pre_phys.bodies@[j2].handle == h2;
                assert(rigid_body_set.bodies@[j2].handle == h2);
            };
            assert forall|e2: int| 0 <= e2 < objs_to_add@.len() implies rigid_body_set.has_body(
                (#[trigger] objs_to_add@[e2]).rigid_body_handle->0,
            ) by {
                let h2 = objs_to_add@[e2].rigid_body_handle->0;
                if e2 < objs_to_add@.len() - added.len() {
                    assert(phys_mid.has_body(h2));
                    let j2 = choose|j2: int|
                        0 <= j2 < phys_mid.bodies@.len() && phys_mid.bodies@[j2].handle == h2;
                    assert(rigid_body_set.bodies@[j2].handle == h2);
                } else {
                    assert(rigid_body_set.has_body(h2));
                }
            };
        }
        if let Some(d) = &obj.drawable_object {
            let dc = DrawCall {
                position: obj.position,
                rotation: obj.rotation,
                scale: obj.scale,
                model_position: d.position,
                model_rotation: d.rotation,
                model_scale: d.scale,
                drawable_group_idx: d.drawable_group_idx,
            };
            proof {
                assert(dc == spec_draw_of(obj));
                draw_src = draw_src.push(i as int);
            }
            draws.push(dc);
        }
        let ghost obj_final = obj;
        game_obj_store.swap_at(i, &mut obj);
        proof {
            assert(game_obj_store.objects@[i as int] == obj_final);
            assert(pre_store.objects@.subrange(0, i as int + 1).drop_last() =~= pre_store.objects@
                .subrange(0, i as int));
            assert(pre_store.objects@.subrange(0, i as int + 1).last() == entity0);
            assert forall|j: int| 0 <= j < draws@.len() implies 0 <= #[trigger] draw_src[j] < i
                as int + 1 && game_obj_store.objects@[draw_src[j]].drawable_object is Some
                && draws@[j] == spec_draw_of(game_obj_store.objects@[draw_src[j]]) by {
                if j < draws_head.len() {
                    assert(game_obj_store.objects@[draw_src[j]] == store_head.objects@[draw_src[j]]);
                    assert(draws@[j] == draws_head[j]);
                } else {
                    assert(draw_src[j] == i as int);
                    assert(game_obj_store.objects@[i as int] == obj_final);
                    assert(draws@[j] == spec_draw_of(obj_final));
                }
            };
        }
        i = i + 1;
    }
    proof {
        assert(pre_store.objects@.subrange(0, n as int) =~= pre_store.objects@);
    }
    let ghost store2 = *game_obj_store;
    let ghost phys2 = *rigid_body_set;
    proof {
        assert forall|j: int| 0 <= j < draws@.len() implies 0 <= #[trigger] draw_src[j] < n as int
            && store2.objects@[draw_src[j]].drawable_object is Some && draws@[j] == spec_draw_of(
            store2.objects@[draw_src[j]],
        ) by {
            assert(store2.objects@[draw_src[j]] == game_obj_store.objects@[draw_src[j]]);
        };
    }
    let mut ri: usize = 0;
    while ri < objs_to_remove.len()
        invariant
            objs_to_remove@.len() == 0,
            ri == 0,
            *game_obj_store == store2,
            *rigid_body_set == phys2,
        decreases objs_to_remove@.len() - ri,
    {
        let id = objs_to_remove[ri];
        game_obj_store.remove(&id);
        ri = ri + 1;
    }
    while objs_to_add.len() > 0
        invariant
            game_obj_store.wf(),
            store2.wf(),
            *rigid_body_set == phys2,
            rigid_body_set.wf(),
            spec_store_phys_consistent(*game_obj_store, *rigid_body_set),
            game_obj_store.counter >= store2.counter,
            game_obj_store.counter + objs_to_add@.len() <= store2.counter + n,
            store2.counter == pre_store.counter,
            pre_store.counter + n < usize::MAX,
            store2.issued@.subset_of(game_obj_store.issued@),
            game_obj_store.objects@.len() >= store2.objects@.len(),
            store2.objects@.len() == n,
            forall|j: int|
                0 <= j < n ==> (#[trigger] game_obj_store.objects@[j]) == store2.objects@[j],
            forall|j: int|
                n <= j < game_obj_store.objects@.len()
                    ==> (#[trigger] game_obj_store.objects@[j]).id > pre_store.counter,
            forall|e: int|
                0 <= e < objs_to_add@.len() ==> (#[trigger] objs_to_add@[e]).wf()
                    && objs_to_add@[e].rigid_body_handle is Some && rigid_body_set.has_body(
                    objs_to_add@[e].rigid_body_handle->0,
                ),
            forall|e1: int, e2: int|
                0 <= e1 < e2 < objs_to_add@.len() ==> (
                #[trigger] objs_to_add@[e1]).rigid_body_handle->0 < (
                #[trigger] objs_to_add@[e2]).rigid_body_handle->0,
            forall|k: int, e: int|
                0 <= k < game_obj_store.body_to_id@.len() && 0 <= e < objs_to_add@.len() ==> (
                #[trigger] game_obj_store.body_to_id@[k]).0 != (
                #[trigger] objs_to_add@[e]).rigid_body_handle->0,
        decreases objs_to_add@.len(),
    {
        let obj2 = objs_to_add.remove(0);
        proof {
            assert(!game_obj_store.spec_map_has(obj2.rigid_body_handle->0)) by {
                if game_obj_store.spec_map_has(obj2.rigid_body_handle->0) {
                    let k = game_obj_store.spec_map_index(obj2.rigid_body_handle->0);
                    assert(game_obj_store.body_to_id@[k].0 == obj2.rigid_body_handle->0);
                }
            }
        }
        game_obj_store.add(obj2);
    }
    proof {
        assert forall|j: int| 0 <= j < draws@.len() implies 0 <= #[trigger] draw_src[j] < n as int
            && game_obj_store.objects@[draw_src[j]].drawable_object is Some && draws@[j]
            == spec_draw_of(game_obj_store.objects@[draw_src[j]]) by {
            assert(game_obj_store.objects@[draw_src[j]] == store2.objects@[draw_src[j]]);
        };
        lemma_draws_match_intro(draws@, game_obj_store.objects@, n as int, draw_src);
    }
    draws
}

} // verus!
