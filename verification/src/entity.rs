//! The entity: the unit of simulation. An entity has a spatial transform,
//! an optional drawable with its own visual offset transform, an optional
//! physics-body binding, sets of behavior and collision-behavior tags, the
//! per-tag private state, and the transient `grounded` flag.

use vstd::prelude::*;
use crate::fxmath::{fx3_in_bounds, FxVec3};
use crate::physics::{PhysicsWorld, BodyHandle};
use crate::behaviors::{
    Behaviors, BehaviorData, BehaviorDataContainerEnum, CollisionBehaviors, CollisionData,
    CollisionDataContainerEnum,
};

verus! {

/// Stable entity identity: assigned once on insertion, never reused.
pub type GameObjectID = usize;

/// Whether the tag `b` stands in `s`.
pub open spec fn seq_has_tag(s: Seq<Behaviors>, b: Behaviors) -> bool {
    exists|i: int| 0 <= i < s.len() && s[i] == b
}

/// Whether the tag `c` stands in `s`.
pub open spec fn seq_has_collision_tag(s: Seq<CollisionBehaviors>, c: CollisionBehaviors) -> bool {
    exists|i: int| 0 <= i < s.len() && s[i] == c
}

/// Whether some entry of `s` is keyed by `key`.
pub open spec fn data_seq_has_key(
    s: Seq<(BehaviorData, BehaviorDataContainerEnum)>,
    key: BehaviorData,
) -> bool {
    exists|i: int| 0 <= i < s.len() && (#[trigger] s[i]).0 == key
}

/// Index of the entry keyed by `key`; unique when keys are unique.
pub open spec fn data_seq_key_index(
    s: Seq<(BehaviorData, BehaviorDataContainerEnum)>,
    key: BehaviorData,
) -> int {
    choose|i: int| 0 <= i < s.len() && (#[trigger] s[i]).0 == key
}

/// The drawable attached to an entity: a visual offset transform composed
/// with the entity's own transform at draw time, and the index of the mesh
/// group to draw.
#[derive(PartialEq, Eq, Structural, Copy, Clone, Debug)]
pub struct DrawableObject {
    pub position: FxVec3,
    pub rotation: FxVec3,
    pub scale: FxVec3,
    pub drawable_group_idx: usize,
}

impl DrawableObject {
    /// All transform components are stored world quantities.
    pub open spec fn wf(self) -> bool {
        fx3_in_bounds(self.position) && fx3_in_bounds(self.rotation) && fx3_in_bounds(self.scale)
    }

    pub fn new(position: FxVec3, rotation: FxVec3, scale: FxVec3, drawable_group_idx: usize) -> (d:
        DrawableObject)
        ensures
            d == (DrawableObject { position, rotation, scale, drawable_group_idx }),
    {
        DrawableObject { position, rotation, scale, drawable_group_idx }
    }
}

/// The unit of simulation.
pub struct GameObject {
    pub position: FxVec3,
    pub rotation: FxVec3,
    pub scale: FxVec3,
    /// Nested child entities, used only for compound visual placement.
    pub children: Vec<GameObject>,
    pub drawable_object: Option<DrawableObject>,
    pub rigid_body_handle: Option<BodyHandle>,
    /// Behavior tags, without duplicates.
    pub behaviors: Vec<Behaviors>,
    /// Collision-behavior tags, without duplicates.
    pub collision_behaviors: Vec<CollisionBehaviors>,
    /// Private behavior state, at most one entry per key.
    pub behaviors_data: Vec<(BehaviorData, BehaviorDataContainerEnum)>,
    /// Private collision-behavior state, at most one entry per key.
    pub collisions_behavior_data: Vec<(CollisionData, CollisionDataContainerEnum)>,
    pub id: GameObjectID,
    /// Observed floor contact this physics step; recomputed, never sticky.
    pub grounded: bool,
}

impl GameObject {
    /// The entity's transform is in range, its tag sets hold no duplicate,
    /// its data mapping holds at most one entry per key, and every data
    /// blob is well formed. Children are purely visual and unconstrained.
    pub open spec fn wf(self) -> bool {
        &&& fx3_in_bounds(self.position)
        &&& fx3_in_bounds(self.rotation)
        &&& fx3_in_bounds(self.scale)
        &&& (self.drawable_object matches Some(d) ==> d.wf())
        &&& forall|i: int, j: int|
            0 <= i < self.behaviors@.len() && 0 <= j < self.behaviors@.len() && i != j
                ==> self.behaviors@[i] != self.behaviors@[j]
        &&& forall|i: int, j: int|
            0 <= i < self.collision_behaviors@.len() && 0 <= j < self.collision_behaviors@.len()
                && i != j ==> self.collision_behaviors@[i] != self.collision_behaviors@[j]
        &&& self.data_keys_unique()
        &&& forall|i: int|
            0 <= i < self.behaviors_data@.len() ==> (#[trigger] self.behaviors_data@[i]).1.wf()
        &&& forall|i: int, j: int|
            0 <= i < self.collisions_behavior_data@.len()
                && 0 <= j < self.collisions_behavior_data@.len() && i != j
                ==> (#[trigger] self.collisions_behavior_data@[i]).0
                    != (#[trigger] self.collisions_behavior_data@[j]).0
    }

    /// The behavior-data mapping holds at most one entry per key.
    pub open spec fn data_keys_unique(self) -> bool {
        forall|i: int, j: int|
            0 <= i < self.behaviors_data@.len() && 0 <= j < self.behaviors_data@.len() && i != j
                ==> (#[trigger] self.behaviors_data@[i]).0 != (#[trigger] self.behaviors_data@[j]).0
    }

    /// Whether the behavior tag `b` is attached.
    pub open spec fn spec_has_behavior(self, b: Behaviors) -> bool {
        seq_has_tag(self.behaviors@, b)
    }

    /// Whether the collision-behavior tag `c` is attached.
    pub open spec fn spec_has_collision_behavior(self, c: CollisionBehaviors) -> bool {
        seq_has_collision_tag(self.collision_behaviors@, c)
    }

    /// Whether a data blob is stored under `key`.
    pub open spec fn spec_has_data(self, key: BehaviorData) -> bool {
        data_seq_has_key(self.behaviors_data@, key)
    }

    /// Index of the data blob stored under `key`; under `wf` it is unique.
    pub open spec fn spec_data_index(self, key: BehaviorData) -> int {
        data_seq_key_index(self.behaviors_data@, key)
    }

    /// The data blob stored under `key`.
    pub open spec fn spec_data(self, key: BehaviorData) -> BehaviorDataContainerEnum {
        self.behaviors_data@[self.spec_data_index(key)].1
    }

    /// With unique keys, the entry at `i` is the one its key resolves to.
    pub proof fn lemma_data_index_is(self, i: int)
        requires
            self.data_keys_unique(),
            0 <= i < self.behaviors_data@.len(),
        ensures
            self.spec_data_index(self.behaviors_data@[i].0) == i,
            self.spec_has_data(self.behaviors_data@[i].0),
    {
        let key = self.behaviors_data@[i].0;
        assert(self.spec_has_data(key));
        let j = self.spec_data_index(key);
        assert(0 <= j < self.behaviors_data@.len() && self.behaviors_data@[j].0 == key);
        if i != j {
            assert(self.behaviors_data@[i].0 != self.behaviors_data@[j].0);
        }
    }

    /// Replacing the blob at one slot leaves every other key's presence and
    /// blob as they were.
    pub proof fn lemma_update_preserves_other_keys(
        self,
        post: GameObject,
        di: int,
        v: BehaviorDataContainerEnum,
        key: BehaviorData,
    )
        requires
            self.data_keys_unique(),
            0 <= di < self.behaviors_data@.len(),
            post.behaviors_data@ == self.behaviors_data@.update(
                di,
                (self.behaviors_data@[di].0, v),
            ),
            key != self.behaviors_data@[di].0,
        ensures
            post.spec_has_data(key) == self.spec_has_data(key),
            self.spec_has_data(key) ==> post.spec_data(key) == self.spec_data(key)
                && post.spec_data_index(key) == self.spec_data_index(key),
            post.data_keys_unique(),
    {
        assert forall|i2: int, j2: int|
            0 <= i2 < post.behaviors_data@.len() && 0 <= j2 < post.behaviors_data@.len() && i2
                != j2 implies (#[trigger] post.behaviors_data@[i2]).0 != (
        #[trigger] post.behaviors_data@[j2]).0 by {
            assert(self.behaviors_data@[i2].0 != self.behaviors_data@[j2].0);
        };
        if self.spec_has_data(key) {
            let i = self.spec_data_index(key);
            assert(0 <= i < self.behaviors_data@.len() && self.behaviors_data@[i].0 == key);
            assert(i != di);
            assert(post.behaviors_data@[i].0 == key);
            post.lemma_data_index_is(i);
            self.lemma_data_index_is(i);
        }
        if post.spec_has_data(key) {
            let i = post.spec_data_index(key);
            assert(0 <= i < post.behaviors_data@.len() && post.behaviors_data@[i].0 == key);
            assert(i != di);
            assert(self.behaviors_data@[i].0 == key);
            assert(self.spec_has_data(key));
        }
    }

    /// A fresh entity: full constructor. Identity is assigned by the store,
    /// so it starts at zero; `grounded` starts true, since scene entities
    /// begin at rest on their spawn points.
    pub fn new(
        position: FxVec3,
        rotation: FxVec3,
        scale: FxVec3,
        children: Vec<GameObject>,
        drawable_object: Option<DrawableObject>,
        rigid_body_handle: Option<BodyHandle>,
        behaviors: Vec<Behaviors>,
        collision_behaviors: Vec<CollisionBehaviors>,
        behaviors_data: Vec<(BehaviorData, BehaviorDataContainerEnum)>,
        collisions_behavior_data: Vec<(CollisionData, CollisionDataContainerEnum)>,
    ) -> (go: GameObject)
        ensures
            go == (GameObject {
                position,
                rotation,
                scale,
                children,
                drawable_object,
                rigid_body_handle,
                behaviors,
                collision_behaviors,
                behaviors_data,
                collisions_behavior_data,
                id: 0,
                grounded: true,
            }),
    {
        GameObject {
            position,
            rotation,
            scale,
            children,
            drawable_object,
            rigid_body_handle,
            behaviors,
            collision_behaviors,
            behaviors_data,
            collisions_behavior_data,
            id: 0,
            grounded: true,
        }
    }

    /// A bare entity at the origin with neutral scale and nothing attached.
    pub fn empty() -> (go: GameObject)
        ensures
            go.position == (FxVec3 { x: 0, y: 0, z: 0 }),
            go.rotation == (FxVec3 { x: 0, y: 0, z: 0 }),
            go.scale == FxVec3::spec_one(),
            go.children@.len() == 0,
            go.drawable_object is None,
            go.rigid_body_handle is None,
            go.behaviors@.len() == 0,
            go.collision_behaviors@.len() == 0,
            go.behaviors_data@.len() == 0,
            go.collisions_behavior_data@.len() == 0,
            go.id == 0,
            go.grounded,
            go.wf(),
    {
        GameObject {
            position: FxVec3::zero(),
            rotation: FxVec3::zero(),
            scale: FxVec3::one(),
            children: Vec::new(),
            drawable_object: None,
            rigid_body_handle: None,
            behaviors: Vec::new(),
            collision_behaviors: Vec::new(),
            behaviors_data: Vec::new(),
            collisions_behavior_data: Vec::new(),
            id: 0,
            grounded: true,
        }
    }

    /// Sync the entity's transform from its physics body: planar position
    /// and the roll angle. Entities without a binding, or bound to a handle
    /// the model does not know, are untouched.
    pub fn physic_update(&mut self, rigid_body_set: &PhysicsWorld)
        requires
            rigid_body_set.wf(),
        ensures
            (match old(self).rigid_body_handle {
                Some(h) => {
                    if rigid_body_set.has_body(h) {
                        *final(self) == (GameObject {
                            position: (FxVec3 {
                                x: rigid_body_set.spec_body(h).translation.x,
                                y: rigid_body_set.spec_body(h).translation.y,
                                z: old(self).position.z,
                            }),
                            rotation: (FxVec3 {
                                x: old(self).rotation.x,
                                y: old(self).rotation.y,
                                z: rigid_body_set.spec_body(h).angle,
                            }),
                            ..*old(self)
                        })
                    } else {
                        *final(self) == *old(self)
                    }
                },
                None => *final(self) == *old(self),
            }),
            old(self).wf() ==> final(self).wf(),
    {
        if let Some(h) = self.rigid_body_handle {
            if let Some(t) = rigid_body_set.translation(h) {
                self.position.x = t.x;
                self.position.y = t.y;
            }
            if let Some(a) = rigid_body_set.rotation_angle(h) {
                self.rotation.z = a;
            }
        }
    }

    /// Attach a behavior tag; attaching one already present changes nothing.
    pub fn add_behavior(self, behavior: Behaviors) -> (go: GameObject)
        ensures
            go.spec_has_behavior(behavior),
            forall|b: Behaviors| self.spec_has_behavior(b) ==> go.spec_has_behavior(b),
            forall|b: Behaviors| go.spec_has_behavior(b) ==> b == behavior || self.spec_has_behavior(b),
            go == (GameObject { behaviors: go.behaviors, ..self }),
            self.spec_has_behavior(behavior) ==> go.behaviors == self.behaviors,
            !self.spec_has_behavior(behavior) ==> go.behaviors@ == self.behaviors@.push(behavior),
            self.wf() ==> go.wf(),
    {
        let mut go = self;
        let ghost prior = go.behaviors@;
        let mut present = false;
        let mut i: usize = 0;
        while i < go.behaviors.len()
            invariant
                i <= go.behaviors@.len(),
                present == exists|j: int| 0 <= j < i && go.behaviors@[j] == behavior,
            decreases go.behaviors@.len() - i,
        {
            if go.behaviors[i] == behavior {
                present = true;
            }
            i = i + 1;
        }
        if !present {
            go.behaviors.push(behavior);
            proof {
                assert(go.behaviors@[prior.len() as int] == behavior);
                assert forall|b: Behaviors| go.spec_has_behavior(b) implies b == behavior
                    || self.spec_has_behavior(b) by {
                    let j = choose|j: int| 0 <= j < go.behaviors@.len() && go.behaviors@[j] == b;
                    if j < prior.len() {
                        assert(self.behaviors@[j] == b);
                    }
                };
                assert forall|b: Behaviors| self.spec_has_behavior(b) implies go.spec_has_behavior(
                    b,
                ) by {
                    let j = choose|j: int| 0 <= j < prior.len() && prior[j] == b;
                    assert(go.behaviors@[j] == b);
                };
            }
        }
        go
    }

    /// Attach a collision-behavior tag; attaching one already present
    /// changes nothing.
    pub fn add_collision_behavior(self, collision_behavior: CollisionBehaviors) -> (go: GameObject)
        ensures
            go.spec_has_collision_behavior(collision_behavior),
            forall|c: CollisionBehaviors|
                self.spec_has_collision_behavior(c) ==> go.spec_has_collision_behavior(c),
            forall|c: CollisionBehaviors|
                go.spec_has_collision_behavior(c) ==> c == collision_behavior
                    || self.spec_has_collision_behavior(c),
            go == (GameObject { collision_behaviors: go.collision_behaviors, ..self }),
            self.spec_has_collision_behavior(collision_behavior) ==> go.collision_behaviors
                == self.collision_behaviors,
            !self.spec_has_collision_behavior(collision_behavior) ==> go.collision_behaviors@
                == self.collision_behaviors@.push(collision_behavior),
            self.wf() ==> go.wf(),
    {
        let mut go = self;
        let ghost prior = go.collision_behaviors@;
        let mut present = false;
        let mut i: usize = 0;
        while i < go.collision_behaviors.len()
            invariant
                i <= go.collision_behaviors@.len(),
                present == exists|j: int| 0 <= j < i && go.collision_behaviors@[j] == collision_behavior,
            decreases go.collision_behaviors@.len() - i,
        {
            if go.collision_behaviors[i] == collision_behavior {
                present = true;
            }
            i = i + 1;
        }
        if !present {
            go.collision_behaviors.push(collision_behavior);
            proof {
                assert(go.collision_behaviors@[prior.len() as int] == collision_behavior);
                assert forall|c: CollisionBehaviors| go.spec_has_collision_behavior(c) implies c
                    == collision_behavior || self.spec_has_collision_behavior(c) by {
                    let j = choose|j: int|
                        0 <= j < go.collision_behaviors@.len() && go.collision_behaviors@[j] == c;
                    if j < prior.len() {
                        assert(self.collision_behaviors@[j] == c);
                    }
                };
                assert forall|c: CollisionBehaviors| self.spec_has_collision_behavior(c) implies go
                    .spec_has_collision_behavior(c) by {
                    let j = choose|j: int| 0 <= j < prior.len() && prior[j] == c;
                    assert(go.collision_behaviors@[j] == c);
                };
            }
        }
        go
    }

    /// Store `behavior_data` under the given behavior tag, replacing any
    /// blob already stored there.
    pub fn add_behavior_data(
        self,
        behavior: Behaviors,
        behavior_data: BehaviorDataContainerEnum,
    ) -> (go: GameObject)
        ensures
            go == (GameObject { behaviors_data: go.behaviors_data, ..self }),
            go.spec_has_data(BehaviorData::Behaviors(behavior)),
            !self.spec_has_data(BehaviorData::Behaviors(behavior)) ==> go.behaviors_data@
                == self.behaviors_data@.push(
                (BehaviorData::Behaviors(behavior), behavior_data),
            ),
            self.data_keys_unique() && self.spec_has_data(BehaviorData::Behaviors(behavior))
                ==> go.behaviors_data@ == self.behaviors_data@.update(
                self.spec_data_index(BehaviorData::Behaviors(behavior)),
                (BehaviorData::Behaviors(behavior), behavior_data),
            ),
            self.wf() ==> go.spec_data(BehaviorData::Behaviors(behavior)) == behavior_data,
            forall|key: BehaviorData| self.spec_has_data(key) ==> go.spec_has_data(key),
            forall|key: BehaviorData|
                go.spec_has_data(key) ==> key == BehaviorData::Behaviors(behavior)
                    || self.spec_has_data(key),
            self.wf() ==> forall|key: BehaviorData|
                self.spec_has_data(key) && key != BehaviorData::Behaviors(behavior)
                    ==> go.spec_has_data(key) && go.spec_data(key) == self.spec_data(key),
            self.wf() && behavior_data.wf() ==> go.wf(),
    {
        let key = BehaviorData::Behaviors(behavior);
        let mut go = self;
        let ghost prior = go.behaviors_data@;
        let mut found: Option<usize> = None;
        let mut i: usize = 0;
        while i < go.behaviors_data.len()
            invariant
                i <= go.behaviors_data@.len(),
                (match found {
                    Some(f) => f < i && go.behaviors_data@[f as int].0 == key,
                    None => forall|j: int| 0 <= j < i ==> (#[trigger] go.behaviors_data@[j]).0 != key,
                }),
            decreases go.behaviors_data@.len() - i,
        {
            if go.behaviors_data[i].0 == key {
                found = Some(i);
            }
            i = i + 1;
        }
        match found {
            Some(f) => {
                go.behaviors_data[f] = (key, behavior_data);
                proof {
                    if self.data_keys_unique() {
                        self.lemma_data_index_is(f as int);
                    }
                    assert(go.behaviors_data@[f as int].0 == key);
                    assert forall|k: BehaviorData| self.spec_has_data(k) implies go.spec_has_data(
                        k,
                    ) by {
                        let j = choose|j: int|
                            0 <= j < prior.len() && (#[trigger] prior[j]).0 == k;
                        if j == f {
                            assert(go.behaviors_data@[j].0 == key);
                            assert(prior[j].0 == key);
                        } else {
                            assert(go.behaviors_data@[j].0 == k);
                        }
                    };
                    assert forall|k: BehaviorData| go.spec_has_data(k) implies k == key
                        || self.spec_has_data(k) by {
                        let j = choose|j: int|
                            0 <= j < go.behaviors_data@.len()
                                && (#[trigger] go.behaviors_data@[j]).0 == k;
                        if j != f {
                            assert(prior[j].0 == k);
                        }
                    };
                    if self.wf() {
                        assert forall|i2: int, j2: int|
                            0 <= i2 < go.behaviors_data@.len() && 0 <= j2
                                < go.behaviors_data@.len() && i2 != j2 implies (
                        #[trigger] go.behaviors_data@[i2]).0
                            != (#[trigger] go.behaviors_data@[j2]).0 by {
                            if i2 != f && j2 != f {
                                assert(prior[i2].0 != prior[j2].0);
                            } else if i2 == f {
                                assert(prior[f as int].0 == key);
                                assert(prior[j2].0 != key);
                            } else {
                                assert(prior[f as int].0 == key);
                                assert(prior[i2].0 != key);
                            }
                        };
                        go.lemma_data_index_is(f as int);
                        assert forall|k: BehaviorData|
                            self.spec_has_data(k) && k != key implies go.spec_has_data(k)
                                && go.spec_data(k) == self.spec_data(k) by {
                            let j = self.spec_data_index(k);
                            assert(prior[j].0 == k);
                            assert(j != f);
                            assert(go.behaviors_data@[j].0 == k);
                            go.lemma_data_index_is(j);
                            self.lemma_data_index_is(j);
                        };
                    }
                }
            },
            None => {
                go.behaviors_data.push((key, behavior_data));
                proof {
                    assert(go.behaviors_data@[prior.len() as int].0 == key);
                    assert forall|k: BehaviorData| self.spec_has_data(k) implies go.spec_has_data(
                        k,
                    ) by {
                        let j = choose|j: int|
                            0 <= j < prior.len() && (#[trigger] prior[j]).0 == k;
                        assert(go.behaviors_data@[j].0 == k);
                    };
                    assert forall|k: BehaviorData| go.spec_has_data(k) implies k == key
                        || self.spec_has_data(k) by {
                        let j = choose|j: int|
                            0 <= j < go.behaviors_data@.len()
                                && (#[trigger] go.behaviors_data@[j]).0 == k;
                        if j < prior.len() {
                            assert(prior[j].0 == k);
                        }
                    };
                    if self.wf() {
                        assert forall|i2: int, j2: int|
                            0 <= i2 < go.behaviors_data@.len() && 0 <= j2
                                < go.behaviors_data@.len() && i2 != j2 implies (
                        #[trigger] go.behaviors_data@[i2]).0
                            != (#[trigger] go.behaviors_data@[j2]).0 by {
                            if i2 < prior.len() && j2 < prior.len() {
                                assert(prior[i2].0 != prior[j2].0);
                            } else if i2 < prior.len() {
                                assert(prior[i2].0 != key);
                            } else {
                                assert(prior[j2].0 != key);
                            }
                        };
                        go.lemma_data_index_is(prior.len() as int);
                        assert forall|k: BehaviorData|
                            self.spec_has_data(k) && k != key implies go.spec_has_data(k)
                                && go.spec_data(k) == self.spec_data(k) by {
                            let j = self.spec_data_index(k);
                            assert(prior[j].0 == k);
                            assert(go.behaviors_data@[j].0 == k);
                            go.lemma_data_index_is(j);
                            self.lemma_data_index_is(j);
                        };
                    }
                }
            },
        }
        go
    }

    /// Store `collision_behavior_data` under the given collision-behavior
    /// tag, replacing any blob already stored there.
    pub fn add_collision_behavior_data(
        self,
        collision_behavior: CollisionBehaviors,
        collision_behavior_data: CollisionDataContainerEnum,
    ) -> (go: GameObject)
        ensures
            go == (GameObject { collisions_behavior_data: go.collisions_behavior_data, ..self }),
            exists|i: int|
                0 <= i < go.collisions_behavior_data@.len()
                    && (#[trigger] go.collisions_behavior_data@[i]) == (
                    CollisionData::CollisionBehaviors(collision_behavior),
                    collision_behavior_data,
                ),
            self.wf() ==> go.wf(),
    {
        let key = CollisionData::CollisionBehaviors(collision_behavior);
        let mut go = self;
        let ghost prior = go.collisions_behavior_data@;
        let mut found: Option<usize> = None;
        let mut i: usize = 0;
        while i < go.collisions_behavior_data.len()
            invariant
                i <= go.collisions_behavior_data@.len(),
                (match found {
                    Some(f) => f < i && go.collisions_behavior_data@[f as int].0 == key,
                    None => forall|j: int|
                        0 <= j < i ==> (#[trigger] go.collisions_behavior_data@[j]).0 != key,
                }),
            decreases go.collisions_behavior_data@.len() - i,
        {
            if go.collisions_behavior_data[i].0 == key {
                found = Some(i);
            }
            i = i + 1;
        }
        match found {
            Some(f) => {
                go.collisions_behavior_data[f] = (key, collision_behavior_data);
                proof {
                    assert(go.collisions_behavior_data@[f as int] == (key, collision_behavior_data));
                    assert forall|i2: int, j2: int|
                        0 <= i2 < go.collisions_behavior_data@.len() && 0 <= j2
                            < go.collisions_behavior_data@.len() && i2 != j2 implies (
                    #[trigger] go.collisions_behavior_data@[i2]).0
                        != (#[trigger] go.collisions_behavior_data@[j2]).0 || !self.wf() by {
                        if self.wf() && i2 != f && j2 != f {
                            assert(prior[i2].0 != prior[j2].0);
                        }
                    };
                }
            },
            None => {
                go.collisions_behavior_data.push((key, collision_behavior_data));
                proof {
                    assert(go.collisions_behavior_data@[prior.len() as int] == (
                        key,
                        collision_behavior_data,
                    ));
                }
            },
        }
        go
    }

    /// Attach a nested child entity.
    pub fn add_child(self, child: GameObject) -> (go: GameObject)
        ensures
            go == (GameObject { children: go.children, ..self }),
            go.children@ == self.children@.push(child),
            self.wf() ==> go.wf(),
    {
        let mut go = self;
        go.children.push(child);
        go
    }
}

/// A purely visual entity: transform plus drawable, no physics binding.
pub fn make_go(
    position: FxVec3,
    rotation: FxVec3,
    scale: FxVec3,
    model_position: FxVec3,
    model_rotation: FxVec3,
    model_scale: FxVec3,
    drawable_obj_idx: usize,
) -> (go: GameObject)
    ensures
        go.position == position,
        go.rotation == rotation,
        go.scale == scale,
        go.drawable_object == Some(
            (DrawableObject {
                position: model_position,
                rotation: model_rotation,
                scale: model_scale,
                drawable_group_idx: drawable_obj_idx,
            }),
        ),
        go.rigid_body_handle is None,
        go.behaviors@.len() == 0,
        go.collision_behaviors@.len() == 0,
        go.behaviors_data@.len() == 0,
        go.collisions_behavior_data@.len() == 0,
        go.children@.len() == 0,
        go.id == 0,
        go.grounded,
        fx3_in_bounds(position) && fx3_in_bounds(rotation) && fx3_in_bounds(scale)
            && fx3_in_bounds(model_position) && fx3_in_bounds(model_rotation) && fx3_in_bounds(
            model_scale,
        ) ==> go.wf(),
{
    let mut go = GameObject::empty();
    go.position = position;
    go.rotation = rotation;
    go.scale = scale;
    go.drawable_object = Some(DrawableObject::new(
        model_position,
        model_rotation,
        model_scale,
        drawable_obj_idx,
    ));
    go
}

/// A physics-bound entity: transform plus drawable plus body handle.
pub fn make_go_rb(
    position: FxVec3,
    rotation: FxVec3,
    scale: FxVec3,
    model_position: FxVec3,
    model_rotation: FxVec3,
    model_scale: FxVec3,
    drawable_obj_idx: usize,
    rigid_body_handle: BodyHandle,
) -> (go: GameObject)
    ensures
        go.position == position,
        go.rotation == rotation,
        go.scale == scale,
        go.drawable_object == Some(
            (DrawableObject {
                position: model_position,
                rotation: model_rotation,
                scale: model_scale,
                drawable_group_idx: drawable_obj_idx,
            }),
        ),
        go.rigid_body_handle == Some(rigid_body_handle),
        go.behaviors@.len() == 0,
        go.collision_behaviors@.len() == 0,
        go.behaviors_data@.len() == 0,
        go.collisions_behavior_data@.len() == 0,
        go.children@.len() == 0,
        go.id == 0,
        go.grounded,
        fx3_in_bounds(position) && fx3_in_bounds(rotation) && fx3_in_bounds(scale)
            && fx3_in_bounds(model_position) && fx3_in_bounds(model_rotation) && fx3_in_bounds(
            model_scale,
        ) ==> go.wf(),
{
    let mut go = make_go(
        position,
        rotation,
        scale,
        model_position,
        model_rotation,
        model_scale,
        drawable_obj_idx,
    );
    go.rigid_body_handle = Some(rigid_body_handle);
    go
}

} // verus!
