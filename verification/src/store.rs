//! The entity store: the single source of truth for what exists.
//!
//! Entities are held by stable integer identity; identities are assigned
//! from a counter that only grows, so an identity, once freed, is never
//! handed out again. The ghost `issued` set records every identity ever
//! assigned; `add` returns one outside it, which makes the no-reuse claim
//! hold across any sequence of adds and removes. Beside the entities the
//! store keeps the reverse body-handle map, which under `wf` holds exactly
//! one entry per live physics-bound entity.

use vstd::prelude::*;
use crate::entity::{GameObject, GameObjectID};
use crate::physics::BodyHandle;

verus! {

/// Owns all entities and the body-handle→identity map.
pub struct GameObjectStore {
    pub objects: Vec<GameObject>,
    pub body_to_id: Vec<(BodyHandle, GameObjectID)>,
    /// Last identity assigned; the next `add` returns `counter + 1`.
    pub counter: GameObjectID,
    /// Every identity ever assigned by this store.
    pub issued: Ghost<Set<GameObjectID>>,
}

impl GameObjectStore {
    /// Some live entity carries identity `id`.
    pub open spec fn spec_has_id(self, id: GameObjectID) -> bool {
        exists|i: int| 0 <= i < self.objects@.len() && (#[trigger] self.objects@[i]).id == id
    }

    /// Index of the live entity carrying `id`; under `wf` it is unique.
    pub open spec fn spec_id_index(self, id: GameObjectID) -> int {
        choose|i: int| 0 <= i < self.objects@.len() && (#[trigger] self.objects@[i]).id == id
    }

    /// The live entity carrying `id`.
    pub open spec fn spec_obj(self, id: GameObjectID) -> GameObject {
        self.objects@[self.spec_id_index(id)]
    }

    /// Some map entry is keyed by handle `h`.
    pub open spec fn spec_map_has(self, h: BodyHandle) -> bool {
        exists|k: int| 0 <= k < self.body_to_id@.len() && (#[trigger] self.body_to_id@[k]).0 == h
    }

    /// Index of the map entry keyed by `h`; under `wf` it is unique.
    pub open spec fn spec_map_index(self, h: BodyHandle) -> int {
        choose|k: int| 0 <= k < self.body_to_id@.len() && (#[trigger] self.body_to_id@[k]).0 == h
    }

    /// The identity the map gives for handle `h`.
    pub open spec fn spec_map_id(self, h: BodyHandle) -> GameObjectID {
        self.body_to_id@[self.spec_map_index(h)].1
    }

    /// Some live entity is bound to body handle `h`.
    pub open spec fn spec_some_entity_bound_to(self, h: BodyHandle) -> bool {
        exists|i: int|
            0 <= i < self.objects@.len() && (#[trigger] self.objects@[i]).rigid_body_handle
                == Some(h)
    }

    /// The map entry at `k` points at a live entity bound to its handle.
    pub open spec fn map_entry_ok(self, k: int) -> bool {
        exists|i: int|
            0 <= i < self.objects@.len() && (#[trigger] self.objects@[i]).id
                == self.body_to_id@[k].1 && self.objects@[i].rigid_body_handle == Some(
                self.body_to_id@[k].0,
            )
    }

    /// The entity at `i`, when physics-bound, has its map entry.
    pub open spec fn bound_entity_ok(self, i: int) -> bool {
        exists|k: int|
            0 <= k < self.body_to_id@.len() && (#[trigger] self.body_to_id@[k]) == (
                self.objects@[i].rigid_body_handle->0,
                self.objects@[i].id,
            )
    }

    /// Well-formedness. Identities are unique, positive, at most the
    /// counter, and all recorded as issued; the reverse map holds exactly
    /// one entry per live physics-bound entity, keyed by its handle.
    pub open spec fn wf(self) -> bool {
        &&& forall|i: int| 0 <= i < self.objects@.len() ==> (#[trigger] self.objects@[i]).wf()
        &&& forall|i: int|
            0 <= i < self.objects@.len() ==> 1 <= (#[trigger] self.objects@[i]).id <= self.counter
        &&& forall|i: int, j: int|
            0 <= i < self.objects@.len() && 0 <= j < self.objects@.len() && i != j
                ==> (#[trigger] self.objects@[i]).id != (#[trigger] self.objects@[j]).id
        &&& forall|i: int|
            0 <= i < self.objects@.len() ==> self.issued@.contains(
                (#[trigger] self.objects@[i]).id,
            )
        &&& forall|id: GameObjectID| self.issued@.contains(id) ==> 1 <= id <= self.counter
        &&& forall|k: int| 0 <= k < self.body_to_id@.len() ==> #[trigger] self.map_entry_ok(k)
        &&& forall|i: int|
            0 <= i < self.objects@.len() && (#[trigger] self.objects@[i]).rigid_body_handle is Some
                ==> self.bound_entity_ok(i)
        &&& forall|k1: int, k2: int|
            0 <= k1 < self.body_to_id@.len() && 0 <= k2 < self.body_to_id@.len() && k1 != k2
                ==> (#[trigger] self.body_to_id@[k1]).0 != (#[trigger] self.body_to_id@[k2]).0
    }

    /// Under `wf`, every map entry has a live entity behind it; returns its
    /// index.
    pub proof fn lemma_map_witness(self, k: int) -> (i: int)
        requires
            self.wf(),
            0 <= k < self.body_to_id@.len(),
        ensures
            0 <= i < self.objects@.len(),
            self.objects@[i].id == self.body_to_id@[k].1,
            self.objects@[i].rigid_body_handle == Some(self.body_to_id@[k].0),
    {
        assert(self.map_entry_ok(k));
        choose|i: int|
            0 <= i < self.objects@.len() && (#[trigger] self.objects@[i]).id
                == self.body_to_id@[k].1 && self.objects@[i].rigid_body_handle == Some(
                self.body_to_id@[k].0,
            )
    }

    /// Under `wf`, every physics-bound entity has a map entry; returns its
    /// index.
    pub proof fn lemma_bound_witness(self, i: int) -> (k: int)
        requires
            self.wf(),
            0 <= i < self.objects@.len(),
            self.objects@[i].rigid_body_handle is Some,
        ensures
            0 <= k < self.body_to_id@.len(),
            self.body_to_id@[k] == (self.objects@[i].rigid_body_handle->0, self.objects@[i].id),
    {
        assert(self.bound_entity_ok(i));
        choose|k: int|
            0 <= k < self.body_to_id@.len() && (#[trigger] self.body_to_id@[k]) == (
                self.objects@[i].rigid_body_handle->0,
                self.objects@[i].id,
            )
    }

    /// Under `wf`, the entity at `i` is the one its identity resolves to.
    pub proof fn lemma_id_index_is(self, i: int)
        requires
            self.wf(),
            0 <= i < self.objects@.len(),
        ensures
            self.spec_id_index(self.objects@[i].id) == i,
            self.spec_has_id(self.objects@[i].id),
            self.spec_obj(self.objects@[i].id) == self.objects@[i],
    {
        let id = self.objects@[i].id;
        assert(self.spec_has_id(id));
        let j = self.spec_id_index(id);
        assert(0 <= j < self.objects@.len() && self.objects@[j].id == id);
        if i != j {
            assert(self.objects@[i].id != self.objects@[j].id);
        }
    }

    /// Under `wf`, the map entry at `k` is the one its handle resolves to.
    pub proof fn lemma_map_index_is(self, k: int)
        requires
            self.wf(),
            0 <= k < self.body_to_id@.len(),
        ensures
            self.spec_map_index(self.body_to_id@[k].0) == k,
            self.spec_map_has(self.body_to_id@[k].0),
    {
        let h = self.body_to_id@[k].0;
        assert(self.spec_map_has(h));
        let k2 = self.spec_map_index(h);
        assert(0 <= k2 < self.body_to_id@.len() && self.body_to_id@[k2].0 == h);
        if k != k2 {
            assert(self.body_to_id@[k].0 != self.body_to_id@[k2].0);
        }
    }

    /// Law: under `wf` the body-handle map holds a handle exactly when a
    /// live entity is bound to it, and then points at that entity.
    pub proof fn lemma_handle_map_exact(self, h: BodyHandle)
        requires
            self.wf(),
        ensures
            self.spec_map_has(h) <==> self.spec_some_entity_bound_to(h),
            self.spec_map_has(h) ==> self.spec_has_id(self.spec_map_id(h))
                && self.spec_obj(self.spec_map_id(h)).rigid_body_handle == Some(h),
    {
        if self.spec_map_has(h) {
            let k = self.spec_map_index(h);
            let i = self.lemma_map_witness(k);
            assert(self.objects@[i].rigid_body_handle == Some(h));
            self.lemma_id_index_is(i);
        }
        if self.spec_some_entity_bound_to(h) {
            let i = choose|i: int|
                0 <= i < self.objects@.len() && (#[trigger] self.objects@[i]).rigid_body_handle
                    == Some(h);
            let k = self.lemma_bound_witness(i);
            assert(self.body_to_id@[k].0 == h);
        }
    }

    /// Law: entity identities are never reused. The ghost `issued` set
    /// holds every identity any `add` ever returned; `add` and `remove`
    /// only grow it and the counter, and the identity the next `add`
    /// returns lies outside it — so across any sequence of adds and
    /// removes no identity comes back, live or dead.
    pub proof fn lemma_identity_fresh(self)
        requires
            self.wf(),
            self.counter < usize::MAX,
        ensures
            !self.issued@.contains((self.counter + 1) as usize),
            forall|i: int|
                0 <= i < self.objects@.len() ==> (#[trigger] self.objects@[i]).id
                    != self.counter + 1,
    {
    }

    /// An empty store; no identity has ever been issued.
    pub fn new() -> (s: GameObjectStore)
        ensures
            s.wf(),
            s.objects@.len() == 0,
            s.body_to_id@.len() == 0,
            s.counter == 0,
            s.issued@ == Set::<GameObjectID>::empty(),
    {
        GameObjectStore {
            objects: Vec::new(),
            body_to_id: Vec::new(),
            counter: 0,
            issued: Ghost(Set::empty()),
        }
    }

    /// Index of the live entity carrying `id`, if any.
    fn find_id(&self, id: GameObjectID) -> (r: Option<usize>)
        requires
            self.wf(),
        ensures
            match r {
                Some(i) => i < self.objects@.len() && self.objects@[i as int].id == id
                    && self.spec_id_index(id) == i,
                None => !self.spec_has_id(id),
            },
    {
        let mut i: usize = 0;
        while i < self.objects.len()
            invariant
                self.wf(),
                i <= self.objects@.len(),
                forall|j: int| 0 <= j < i ==> (#[trigger] self.objects@[j]).id != id,
            decreases self.objects@.len() - i,
        {
            if self.objects[i].id == id {
                proof {
                    self.lemma_id_index_is(i as int);
                }
                return Some(i);
            }
            i = i + 1;
        }
        None
    }

    /// Index of the map entry keyed by `h`, if any.
    fn find_map(&self, h: BodyHandle) -> (r: Option<usize>)
        requires
            self.wf(),
        ensures
            match r {
                Some(k) => k < self.body_to_id@.len() && self.body_to_id@[k as int].0 == h
                    && self.spec_map_index(h) == k,
                None => !self.spec_map_has(h),
            },
    {
        let mut k: usize = 0;
        while k < self.body_to_id.len()
            invariant
                self.wf(),
                k <= self.body_to_id@.len(),
                forall|j: int| 0 <= j < k ==> (#[trigger] self.body_to_id@[j]).0 != h,
            decreases self.body_to_id@.len() - k,
        {
            if self.body_to_id[k].0 == h {
                proof {
                    self.lemma_map_index_is(k as int);
                }
                return Some(k);
            }
            k = k + 1;
        }
        None
    }

    /// Insert an entity: assign the next identity, record it on the entity,
    /// register the body-handle mapping if a physics binding is present,
    /// and return the new identity. The identity returned was never issued
    /// before — across any sequence of adds and removes — because the
    /// counter only grows and `issued` only accumulates.
    pub fn add(&mut self, go: GameObject) -> (id: GameObjectID)
        requires
            old(self).wf(),
            go.wf(),
            old(self).counter < usize::MAX,
            go.rigid_body_handle matches Some(h) ==> !old(self).spec_map_has(h),
        ensures
            final(self).wf(),
            id == old(self).counter + 1,
            final(self).counter == id,
            !old(self).issued@.contains(id),
            final(self).issued@ == old(self).issued@.insert(id),
            final(self).objects@ == old(self).objects@.push((GameObject { id, ..go })),
            (match go.rigid_body_handle {
                Some(h) => final(self).body_to_id@ == old(self).body_to_id@.push((h, id)),
                None => final(self).body_to_id == old(self).body_to_id,
            }),
            final(self).spec_has_id(id),
    {
        proof {
            assert(!old(self).issued@.contains((old(self).counter + 1) as usize));
        }
        self.counter = self.counter + 1;
        let id = self.counter;
        let mut go = go;
        go.id = id;
        if let Some(h) = go.rigid_body_handle {
            self.body_to_id.push((h, id));
        }
        self.objects.push(go);
        proof {
            self.issued@ = self.issued@.insert(id);
        }
        let ghost pre = *old(self);
        proof {
            let n = self.objects@.len() - 1;
            assert(self.objects@[n] == go);
            assert(self.spec_has_id(id));
            // the pushed map entry (if any) is witnessed by the pushed entity,
            // and every old entry keeps its old witness
            assert forall|k: int| 0 <= k < self.body_to_id@.len() implies self.map_entry_ok(k) by {
                if k < pre.body_to_id@.len() {
                    let i = pre.lemma_map_witness(k);
                    assert(self.objects@[i].id == self.body_to_id@[k].1
                        && self.objects@[i].rigid_body_handle == Some(self.body_to_id@[k].0));
                } else {
                    assert(self.objects@[n].id == self.body_to_id@[k].1
                        && self.objects@[n].rigid_body_handle == Some(self.body_to_id@[k].0));
                }
            };
            assert forall|i: int|
                0 <= i < self.objects@.len() && (#[trigger] self.objects@[i]).rigid_body_handle
                    is Some implies self.bound_entity_ok(i) by {
                if i < pre.objects@.len() {
                    let k = pre.lemma_bound_witness(i);
                    assert(self.body_to_id@[k] == (
                        self.objects@[i].rigid_body_handle->0,
                        self.objects@[i].id,
                    ));
                } else {
                    assert(self.body_to_id@[self.body_to_id@.len() - 1] == (
                        self.objects@[i].rigid_body_handle->0,
                        self.objects@[i].id,
                    ));
                }
            };
        }
        id
    }

    /// Remove the entity carrying `id`: its body-handle mapping goes first,
    /// then the entity itself. Removing an identity not present is a no-op
    /// and leaves every other entity untouched.
    pub fn remove(&mut self, id: &GameObjectID)
        requires
            old(self).wf(),
        ensures
            final(self).wf(),
            final(self).counter == old(self).counter,
            final(self).issued == old(self).issued,
            old(self).spec_has_id(*id) ==> final(self).objects@ == old(self).objects@.remove(
                old(self).spec_id_index(*id),
            ) && (match old(self).spec_obj(*id).rigid_body_handle {
                Some(h) => final(self).body_to_id@ == old(self).body_to_id@.remove(
                    old(self).spec_map_index(h),
                ),
                None => final(self).body_to_id == old(self).body_to_id,
            }),
            !old(self).spec_has_id(*id) ==> *final(self) == *old(self),
            !final(self).spec_has_id(*id),
    {
        let id = *id;
        let ghost pre = *old(self);
        match self.find_id(id) {
            Some(i) => {
                proof {
                    pre.lemma_id_index_is(i as int);
                }
                if let Some(h) = self.objects[i].rigid_body_handle {
                    match self.find_map(h) {
                        Some(k) => {
                            proof {
                                // the entry keyed by h belongs to this entity
                                let kw = pre.lemma_bound_witness(i as int);
                                pre.lemma_map_index_is(kw);
                                assert(kw == k);
                            }
                            self.body_to_id.remove(k);
                        },
                        None => {
                            proof {
                                let kw = pre.lemma_bound_witness(i as int);
                                pre.lemma_map_index_is(kw);
                                assert(false);
                            }
                        },
                    }
                }
                self.objects.remove(i);
                proof {
                    self.lemma_remove_restores_wf(pre, i as int);
                }
            },
            None => {},
        }
    }

    /// After removing entity `i` of `pre` and its map entry, the store is
    /// well formed again and no entity carries the removed identity.
    #[verifier::rlimit(100)]
    proof fn lemma_remove_restores_wf(self, pre: GameObjectStore, i: int)
        requires
            pre.wf(),
            0 <= i < pre.objects@.len(),
            self.objects@ == pre.objects@.remove(i),
            (match pre.objects@[i].rigid_body_handle {
                Some(h) => self.body_to_id@ == pre.body_to_id@.remove(pre.spec_map_index(h)),
                None => self.body_to_id@ == pre.body_to_id@,
            }),
            self.counter == pre.counter,
            self.issued == pre.issued,
        ensures
            self.wf(),
            !self.spec_has_id(pre.objects@[i].id),
    {
        let gone = pre.objects@[i];
        let ghost kr: int = match gone.rigid_body_handle {
            Some(h) => pre.spec_map_index(h),
            None => pre.body_to_id@.len() as int,
        };
        if gone.rigid_body_handle is Some {
            let h = gone.rigid_body_handle->0;
            let kw = choose|kw: int|
                0 <= kw < pre.body_to_id@.len() && (#[trigger] pre.body_to_id@[kw]) == (h, gone.id);
            pre.lemma_map_index_is(kw);
            assert(kr == kw);
            assert(pre.body_to_id@[kr] == (h, gone.id));
        }
        // index maps: objects j -> j or j+1; map entries k -> k or k+1
        assert forall|j: int|
            0 <= j < self.objects@.len() implies (#[trigger] self.objects@[j])
            == pre.objects@[if j < i { j } else { j + 1 }] by {}
        // no remaining entity carries the removed identity
        assert forall|j: int| 0 <= j < self.objects@.len() implies (#[trigger] self.objects@[j]).id
            != gone.id by {
            let jp: int = if j < i { j } else { j + 1 };
            assert(pre.objects@[jp].id != pre.objects@[i].id);
        };
        // forward exactness: every surviving map entry keeps a witness
        assert forall|k: int| 0 <= k < self.body_to_id@.len() implies self.map_entry_ok(k) by {
            let kp: int = if k < kr { k } else { k + 1 };
            assert(self.body_to_id@[k] == pre.body_to_id@[kp]);
            let jp = pre.lemma_map_witness(kp);
            // jp cannot be the removed entity: its map entry was the removed one
            if jp == i {
                assert(pre.body_to_id@[kp].1 == gone.id);
                assert(gone.rigid_body_handle is Some);
                pre.lemma_map_index_is(kp);
                assert(kp == kr);
                assert(false);
            }
            let j: int = if jp < i { jp } else { jp - 1 };
            assert(self.objects@[j] == pre.objects@[jp]);
            assert(0 <= j < self.objects@.len() && self.objects@[j].id == self.body_to_id@[k].1
                && self.objects@[j].rigid_body_handle == Some(self.body_to_id@[k].0));
        };
        // backward exactness: every surviving bound entity keeps its entry
        assert forall|j: int|
            0 <= j < self.objects@.len() && (#[trigger] self.objects@[j]).rigid_body_handle
                is Some implies self.bound_entity_ok(j) by {
            let jp: int = if j < i { j } else { j + 1 };
            assert(self.objects@[j] == pre.objects@[jp]);
            let kp = pre.lemma_bound_witness(jp);
            // kp is not the removed entry, whose identity belongs to entity i
            if kp == kr && gone.rigid_body_handle is Some {
                assert(pre.body_to_id@[kr].1 == gone.id);
                assert(pre.objects@[jp].id == gone.id);
                assert(jp != i);
                assert(pre.objects@[jp].id != pre.objects@[i].id);
                assert(false);
            }
            let k: int = if kp < kr { kp } else { kp - 1 };
            assert(self.body_to_id@[k] == pre.body_to_id@[kp]);
            assert(0 <= k < self.body_to_id@.len() && self.body_to_id@[k] == (
                self.objects@[j].rigid_body_handle->0,
                self.objects@[j].id,
            ));
        };
        assert forall|k1: int, k2: int|
            0 <= k1 < self.body_to_id@.len() && 0 <= k2 < self.body_to_id@.len() && k1
                != k2 implies (#[trigger] self.body_to_id@[k1]).0 != (
        #[trigger] self.body_to_id@[k2]).0 by {
            let kp1: int = if k1 < kr { k1 } else { k1 + 1 };
            let kp2: int = if k2 < kr { k2 } else { k2 + 1 };
            assert(self.body_to_id@[k1] == pre.body_to_id@[kp1]);
            assert(self.body_to_id@[k2] == pre.body_to_id@[kp2]);
            assert(pre.body_to_id@[kp1].0 != pre.body_to_id@[kp2].0);
        };
    }

    /// Swap the entity at `i` for another carrying the same identity and
    /// physics binding. The frame loop uses this to give one entity's
    /// update exclusive access to itself while the store stays well formed
    /// for shared lookups.
    pub fn swap_at(&mut self, i: usize, obj: &mut GameObject)
        requires
            old(self).wf(),
            i < old(self).objects@.len(),
            old(obj).wf(),
            old(obj).id == old(self).objects@[i as int].id,
            old(obj).rigid_body_handle == old(self).objects@[i as int].rigid_body_handle,
        ensures
            final(self).wf(),
            *final(obj) == old(self).objects@[i as int],
            final(self).objects@ == old(self).objects@.update(i as int, *old(obj)),
            final(self).body_to_id == old(self).body_to_id,
            final(self).counter == old(self).counter,
            final(self).issued == old(self).issued,
    {
        let ghost pre = *old(self);
        let slot = &mut self.objects[i];
        core::mem::swap(slot, obj);
        proof {
            assert(self.objects@ =~= pre.objects@.update(i as int, *old(obj)));
            assert forall|k: int| 0 <= k < self.body_to_id@.len() implies self.map_entry_ok(k) by {
                let j = pre.lemma_map_witness(k);
                assert(self.objects@[j].id == self.body_to_id@[k].1
                    && self.objects@[j].rigid_body_handle == Some(self.body_to_id@[k].0));
            };
            assert forall|j: int|
                0 <= j < self.objects@.len() && (#[trigger] self.objects@[j]).rigid_body_handle
                    is Some implies self.bound_entity_ok(j) by {
                let k = pre.lemma_bound_witness(j);
                assert(self.body_to_id@[k] == (
                    self.objects@[j].rigid_body_handle->0,
                    self.objects@[j].id,
                ));
            };
        }
    }

    /// The live entity carrying `id`, if any. A missing identity is the
    /// recoverable "target gone" condition, never a fault.
    pub fn get(&self, id: GameObjectID) -> (r: Option<&GameObject>)
        requires
            self.wf(),
        ensures
            (match r {
                Some(g) => self.spec_has_id(id) && *g == self.spec_obj(id),
                None => !self.spec_has_id(id),
            }),
    {
        match self.find_id(id) {
            Some(i) => Some(&self.objects[i]),
            None => None,
        }
    }

    /// Identity of the entity bound to `rb_handle`, if the map knows the
    /// handle. An unknown handle means the physics world and the store have
    /// desynchronized; the caller treats it as the recoverable form of that
    /// fault and skips the lookup.
    pub fn lookup_by_rb_handle(&self, rb_handle: &BodyHandle) -> (r: Option<GameObjectID>)
        requires
            self.wf(),
        ensures
            r == if self.spec_map_has(*rb_handle) {
                Some(self.spec_map_id(*rb_handle))
            } else {
                Option::<GameObjectID>::None
            },
    {
        match self.find_map(*rb_handle) {
            Some(k) => Some(self.body_to_id[k].1),
            None => None,
        }
    }
}

} // verus!
