//! The entity store: sole owner of all live entities, keyed by identity.
//!
//! The simulation step must read other entities' snapshots while it
//! mutates one entity, which a single owning map cannot lend out.  The
//! store therefore exposes an extract/reinsert protocol: `temp_remove`
//! detaches one entity and hands the caller sole ownership, and
//! `temp_reinsert` restores it.  Between the two calls the detached
//! identity is absent from the store, so no other store operation can
//! reach the entity; the round trip leaves the store's contents exactly
//! as they were.

use vstd::prelude::*;
use std::collections::HashMap;
use crate::actor::Actor;
use crate::actor::ActorType;
use crate::actor::actor_wf;
use crate::actor::spec_kind_extent;
use crate::geometry::SpriteRectangle;
use crate::geometry::rect_wf;

verus! {

/// The entity store.
pub struct ActorManager {
    actors: HashMap<i32, Actor>,
    ids: Vec<i32>,
    next_id: i32,
}

/// Drops `id` from the list, preserving order, distinctness and every
/// other element.
fn remove_id(ids: &mut Vec<i32>, id: i32)
    requires
        old(ids)@.no_duplicates(),
    ensures
        final(ids)@.no_duplicates(),
        !final(ids)@.contains(id),
        forall|k: i32| k != id ==> (final(ids)@.contains(k) <==> old(ids)@.contains(k)),
{
    let n = ids.len();
    let mut j: usize = 0;
    while j < n
        invariant
            n == ids@.len(),
            j <= n,
            ids@ == old(ids)@,
            old(ids)@.no_duplicates(),
            forall|m: int| 0 <= m < j ==> ids@[m] != id,
        decreases n - j,
    {
        if ids[j] == id {
            let ghost pre = ids@;
            ids.remove(j);
            proof {
                assert(ids@ =~= pre.subrange(0, j as int) + pre.subrange(j + 1, pre.len() as int));
                assert forall|k: i32| k != id implies (ids@.contains(k) <==> pre.contains(
                    k,
                )) by {
                    if ids@.contains(k) {
                        let m = choose|m: int| 0 <= m < ids@.len() && ids@[m] == k;
                        if m < j {
                            assert(pre[m] == k);
                        } else {
                            assert(pre[m + 1] == k);
                        }
                    }
                    if pre.contains(k) {
                        let m = choose|m: int| 0 <= m < pre.len() && pre[m] == k;
                        if m < j {
                            assert(ids@[m] == k);
                        } else {
                            assert(m > j);
                            assert(ids@[m - 1] == k);
                        }
                    }
                }
                assert forall|p: int, q: int|
                    0 <= p < ids@.len() && 0 <= q < ids@.len() && p != q implies ids@[p]
                    != ids@[q] by {
                    let p0: int = if p < j {
                        p
                    } else {
                        p + 1
                    };
                    let q0: int = if q < j {
                        q
                    } else {
                        q + 1
                    };
                    assert(ids@[p] == pre[p0] && ids@[q] == pre[q0]);
                }
                assert(!ids@.contains(id)) by {
                    if ids@.contains(id) {
                        let m = choose|m: int| 0 <= m < ids@.len() && ids@[m] == id;
                        let m0: int = if m < j {
                            m
                        } else {
                            m + 1
                        };
                        assert(pre[m0] == id && pre[j as int] == id);
                    }
                }
            }
            return;
        }
        j = j + 1;
    }
    proof {
        assert(!ids@.contains(id)) by {
            if ids@.contains(id) {
                let m = choose|m: int| 0 <= m < ids@.len() && ids@[m] == id;
            }
        }
    }
}


/// Appending a fresh identity keeps the list duplicate-free and adds
/// exactly that identity to its members.
pub proof fn lemma_push_id(pre: Seq<i32>, id: i32)
    requires
        pre.no_duplicates(),
        !pre.contains(id),
    ensures
        pre.push(id).no_duplicates(),
        forall|k: i32| pre.push(id).contains(k) <==> (pre.contains(k) || k == id),
{
    let post = pre.push(id);
    assert forall|k: i32| post.contains(k) <==> (pre.contains(k) || k == id) by {
        if post.contains(k) {
            let m = choose|m: int| 0 <= m < post.len() && post[m] == k;
            if m < pre.len() {
                assert(pre[m] == k);
            }
        }
        if pre.contains(k) {
            let m = choose|m: int| 0 <= m < pre.len() && pre[m] == k;
            assert(post[m] == k);
        }
        if k == id {
            assert(post.last() == id);
        }
    }
    assert forall|p: int, q: int|
        0 <= p < post.len() && 0 <= q < post.len() && p != q implies post[p] != post[q] by {
        if p < pre.len() && q < pre.len() {
            assert(post[p] == pre[p] && post[q] == pre[q]);
        } else if p == pre.len() {
            assert(post[p] == id && post[q] == pre[q]);
            if pre[q] == id {
                assert(pre.contains(id));
            }
        } else {
            assert(post[q] == id && post[p] == pre[p]);
            if pre[p] == id {
                assert(pre.contains(id));
            }
        }
    }
}

impl ActorManager {
    /// The stored entities, by identity.
    pub closed spec fn view(&self) -> Map<i32, Actor> {
        self.actors@
    }

    /// The stored identities, in iteration order.
    pub closed spec fn ids_of(&self) -> Seq<i32> {
        self.ids@
    }

    /// Every identity the store ever handed out is below this bound.
    pub closed spec fn id_bound(&self) -> i32 {
        self.next_id
    }

    /// Entities carry their own key, are well formed, and sit below the
    /// identity bound; the identity list mirrors the map's domain without
    /// duplicates.
    pub closed spec fn wf(&self) -> bool {
        &&& 0 <= self.next_id
        &&& forall|k: i32| #[trigger]
            self.actors@.contains_key(k) ==> self.actors@[k].id == k && actor_wf(self.actors@[k])
                && 0 <= k < self.next_id
        &&& self.ids@.no_duplicates()
        &&& forall|k: i32| self.actors@.contains_key(k) <==> #[trigger] self.ids@.contains(k)
    }

    /// An empty store.
    pub fn new() -> (m: ActorManager)
        ensures
            m.wf(),
            m.view() == Map::<i32, Actor>::empty(),
            m.ids_of() == Seq::<i32>::empty(),
            m.id_bound() == 0,
    {
        let m = ActorManager { actors: HashMap::new(), ids: Vec::new(), next_id: 0 };
        proof {
            broadcast use vstd::std_specs::hash::group_hash_axioms;

        }
        m
    }

    /// Constructs an entity of the given kind at `position` under a fresh
    /// identity and inserts it; the fresh identity is returned.  Nothing
    /// is inserted when the entity's configuration is rejected or the
    /// identity space is exhausted.
    pub fn add(&mut self, kind: ActorType, position: (i32, i32), fps: u32) -> (r: Option<i32>)
        requires
            old(self).wf(),
        ensures
            final(self).wf(),
            r is Some <==> (old(self).id_bound() < i32::MAX && 1 <= fps <= 1000 && rect_wf(
                (SpriteRectangle {
                    x: position.0,
                    y: position.1,
                    w: spec_kind_extent(kind),
                    h: spec_kind_extent(kind),
                }),
            )),
            r is None ==> *final(self) == *old(self),
            r is Some ==> {
                let id = r.unwrap();
                &&& id == old(self).id_bound()
                &&& !old(self).view().contains_key(id)
                &&& final(self).view() == old(self).view().insert(id, final(self).view()[id])
                &&& final(self).id_bound() == old(self).id_bound() + 1
                &&& final(self).view()[id].id == id
                &&& final(self).view()[id].actor_type == kind
                &&& final(self).view()[id].rect == (SpriteRectangle {
                    x: position.0,
                    y: position.1,
                    w: spec_kind_extent(kind),
                    h: spec_kind_extent(kind),
                })
            },
    {
        broadcast use vstd::std_specs::hash::group_hash_axioms;

        if self.next_id == i32::MAX {
            return Option::None;
        }
        let id = self.next_id;
        match Actor::new(kind, id, position, fps) {
            Option::Some(actor) => {
                self.actors.insert(id, actor);
                self.ids.push(id);
                self.next_id = id + 1;
                proof {
                    assert(!old(self).actors@.contains_key(id));
                    assert(!old(self).ids@.contains(id));
                    lemma_push_id(old(self).ids@, id);
                    assert forall|k: i32|
                        self.actors@.contains_key(k) <==> #[trigger] self.ids@.contains(k) by {
                        assert(old(self).ids@.contains(k) <==> old(self).actors@.contains_key(k));
                    }
                }
                Option::Some(id)
            }
            Option::None => Option::None,
        }
    }

    /// Permanently evicts `id`; evicting an absent identity changes
    /// nothing.
    pub fn remove(&mut self, id: i32)
        requires
            old(self).wf(),
        ensures
            final(self).wf(),
            final(self).view() == old(self).view().remove(id),
            final(self).id_bound() == old(self).id_bound(),
    {
        broadcast use vstd::std_specs::hash::group_hash_axioms;

        self.actors.remove(&id);
        remove_id(&mut self.ids, id);
        proof {
            assert(final(self).actors@ =~= old(self).actors@.remove(id));
        }
    }

    /// Detaches the entity under `id` and hands the caller sole
    /// ownership; the store no longer reaches it under any operation.
    /// Nothing is returned when `id` is absent — an identity removed
    /// earlier in the same frame is silently skipped, not an error.
    pub fn temp_remove(&mut self, id: i32) -> (r: Option<Actor>)
        requires
            old(self).wf(),
        ensures
            final(self).wf(),
            final(self).id_bound() == old(self).id_bound(),
            r is Some <==> old(self).view().contains_key(id),
            r is Some ==> {
                &&& r == Option::Some(old(self).view()[id])
                &&& r.unwrap().id == id && actor_wf(r.unwrap()) && 0 <= id < old(self).id_bound()
                &&& final(self).view() == old(self).view().remove(id)
                &&& !final(self).view().contains_key(id)
            },
            r is None ==> final(self).view() == old(self).view() && final(self).ids_of() == old(
                self,
            ).ids_of(),
    {
        broadcast use vstd::std_specs::hash::group_hash_axioms;

        match self.actors.remove(&id) {
            Option::Some(actor) => {
                remove_id(&mut self.ids, id);
                proof {
                    assert(final(self).actors@ =~= old(self).actors@.remove(id));
                }
                Option::Some(actor)
            }
            Option::None => {
                proof {
                    assert(self.actors@ =~= old(self).actors@);
                }
                Option::None
            }
        }
    }

    /// Restores ownership of an entity detached by `temp_remove`.  Every
    /// control path between the two calls must end here, or the entity is
    /// lost for good.
    pub fn temp_reinsert(&mut self, id: i32, actor: Actor)
        requires
            old(self).wf(),
            actor.id == id,
            actor_wf(actor),
            0 <= id < old(self).id_bound(),
            !old(self).view().contains_key(id),
        ensures
            final(self).wf(),
            final(self).id_bound() == old(self).id_bound(),
            final(self).view() == old(self).view().insert(id, actor),
    {
        broadcast use vstd::std_specs::hash::group_hash_axioms;

        self.actors.insert(id, actor);
        self.ids.push(id);
        proof {
            assert(!old(self).ids@.contains(id));
            lemma_push_id(old(self).ids@, id);
            assert forall|k: i32|
                self.actors@.contains_key(k) <==> #[trigger] self.ids@.contains(k) by {
                assert(old(self).ids@.contains(k) <==> old(self).actors@.contains_key(k));
            }
        }
    }

    /// Read access to the entity under `id`.
    pub fn get(&self, id: i32) -> (r: Option<&Actor>)
        requires
            self.wf(),
        ensures
            r is Some <==> self.view().contains_key(id),
            r is Some ==> *r.unwrap() == self.view()[id] && actor_wf(*r.unwrap())
                && r.unwrap().id == id && 0 <= id < self.id_bound(),
    {
        broadcast use vstd::std_specs::hash::group_hash_axioms;

        self.actors.get(&id)
    }

    /// The number of stored entities.
    pub fn len(&self) -> (n: usize)
        requires
            self.wf(),
        ensures
            n == self.view().dom().len(),
    {
        broadcast use vstd::std_specs::hash::group_hash_axioms;

        self.actors.len()
    }

    /// The stored identities, in iteration order: exactly the map's
    /// domain, each once.
    pub fn ids_vec(&self) -> (out: Vec<i32>)
        requires
            self.wf(),
        ensures
            out@ == self.ids_of(),
            out@.no_duplicates(),
            forall|k: i32| out@.contains(k) <==> self.view().contains_key(k),
    {
        let n = self.ids.len();
        let mut out: Vec<i32> = Vec::new();
        let mut j: usize = 0;
        while j < n
            invariant
                n == self.ids@.len(),
                j <= n,
                out@ == self.ids@.take(j as int),
            decreases n - j,
        {
            out.push(self.ids[j]);
            proof {
                assert(self.ids@.take(j + 1) =~= self.ids@.take(j as int).push(
                    self.ids@[j as int],
                ));
            }
            j = j + 1;
        }
        proof {
            assert(self.ids@.take(n as int) =~= self.ids@);
        }
        out
    }
}

/// Extract/reinsert round trip: detaching an entity and restoring it
/// leaves a store's contents exactly as they were.
pub proof fn lemma_extract_reinsert_round_trip(m: Map<i32, Actor>, id: i32)
    requires
        m.contains_key(id),
    ensures
        m.remove(id).insert(id, m[id]) == m,
{
    assert(m.remove(id).insert(id, m[id]) =~= m);
}

} // verus!
