//! Broad-phase spatial index over entity snapshots.
//!
//! The tree partitions a region into four quadrants, created lazily once a
//! node holds more than its capacity of snapshots and its region is still
//! larger than the minimum dimension.  A snapshot whose rectangle lies
//! inside a node's region is handed down into **every** child quadrant it
//! overlaps — the duplication is intentional, so a query can never miss a
//! stored snapshot: `retrieve` returns a superset of the snapshots whose
//! rectangles overlap the query rectangle.  Callers re-verify exact overlap
//! before treating a pair as colliding.

use vstd::prelude::*;
use crate::actor::ActorData;
use crate::geometry::SpriteRectangle;
use crate::geometry::rect_has_point;
use crate::geometry::rect_wf;
use crate::geometry::spec_contains;
use crate::geometry::spec_overlaps;
use crate::geometry::lemma_contains_is_point_subset;
use crate::geometry::lemma_overlaps_iff_common_point;

verus! {

/// Default number of snapshots a node holds before it splits.
pub const DEFAULT_CAPACITY: usize = 4;

/// Default minimum region dimension below which a node never splits.
pub const DEFAULT_MIN_DIMENSION: u32 = 32;

/// The four lazily created children of a split node.
struct QuadBranches {
    nw: Quadtree,
    ne: Quadtree,
    sw: Quadtree,
    se: Quadtree,
}

/// One node of the spatial index; the root doubles as the whole tree.
pub struct Quadtree {
    region: SpriteRectangle,
    capacity: usize,
    min_dim: u32,
    items: Vec<ActorData>,
    children: Option<Box<QuadBranches>>,
}

/// North-west quadrant of a region.
spec fn quad_nw(r: SpriteRectangle) -> SpriteRectangle {
    SpriteRectangle { x: r.x, y: r.y, w: r.w / 2, h: r.h / 2 }
}

/// North-east quadrant of a region.
spec fn quad_ne(r: SpriteRectangle) -> SpriteRectangle {
    SpriteRectangle {
        x: (r.x + (r.w / 2) as i32) as i32,
        y: r.y,
        w: (r.w - r.w / 2) as u32,
        h: r.h / 2,
    }
}

/// South-west quadrant of a region.
spec fn quad_sw(r: SpriteRectangle) -> SpriteRectangle {
    SpriteRectangle {
        x: r.x,
        y: (r.y + (r.h / 2) as i32) as i32,
        w: r.w / 2,
        h: (r.h - r.h / 2) as u32,
    }
}

/// South-east quadrant of a region.
spec fn quad_se(r: SpriteRectangle) -> SpriteRectangle {
    SpriteRectangle {
        x: (r.x + (r.w / 2) as i32) as i32,
        y: (r.y + (r.h / 2) as i32) as i32,
        w: (r.w - r.w / 2) as u32,
        h: (r.h - r.h / 2) as u32,
    }
}

/// The quadrants of a splittable region are well formed, strictly smaller
/// than the region on both axes, and cover it completely.
proof fn lemma_quadrants(r: SpriteRectangle)
    requires
        rect_wf(r),
        r.w >= 2,
        r.h >= 2,
    ensures
        rect_wf(quad_nw(r)) && rect_wf(quad_ne(r)) && rect_wf(quad_sw(r)) && rect_wf(quad_se(r)),
        quad_nw(r).w < r.w && quad_nw(r).h < r.h,
        quad_ne(r).w < r.w && quad_ne(r).h < r.h,
        quad_sw(r).w < r.w && quad_sw(r).h < r.h,
        quad_se(r).w < r.w && quad_se(r).h < r.h,
        forall|px: int, py: int|
            rect_has_point(r, px, py) ==> rect_has_point(quad_nw(r), px, py) || rect_has_point(
                quad_ne(r),
                px,
                py,
            ) || rect_has_point(quad_sw(r), px, py) || rect_has_point(quad_se(r), px, py),
{
}

/// What holds of every snapshot that a split node has handed down to its
/// children: the snapshot is well formed, lies inside the node's region,
/// and sits in every child quadrant it overlaps.
spec fn delegated_inv(
    region: SpriteRectangle,
    nw: Quadtree,
    ne: Quadtree,
    sw: Quadtree,
    se: Quadtree,
    s: ActorData,
) -> bool {
    &&& rect_wf(s.rect)
    &&& spec_contains(region, s.rect)
    &&& (spec_overlaps(s.rect, nw.region) ==> nw.contents().contains(s))
    &&& (spec_overlaps(s.rect, ne.region) ==> ne.contents().contains(s))
    &&& (spec_overlaps(s.rect, sw.region) ==> sw.contents().contains(s))
    &&& (spec_overlaps(s.rect, se.region) ==> se.contents().contains(s))
}

impl Quadtree {
    /// Every snapshot stored anywhere in the subtree, as a set (the tree
    /// may physically hold a snapshot in several quadrants).
    pub closed spec fn contents(self) -> Set<ActorData>
        decreases self,
    {
        match self.children {
            Option::None => self.items@.to_set(),
            Option::Some(b) => self.items@.to_set() + b.nw.contents() + b.ne.contents()
                + b.sw.contents() + b.se.contents(),
        }
    }

    /// The region this node indexes.
    pub closed spec fn region_of(self) -> SpriteRectangle {
        self.region
    }

    /// Structural well-formedness: regions are well formed, children are
    /// the four quadrants of their parent, and every snapshot handed down
    /// to children obeys `delegated_inv`.
    pub closed spec fn wf(self) -> bool
        decreases self,
    {
        &&& rect_wf(self.region)
        &&& 1 <= self.capacity
        &&& 1 <= self.min_dim
        &&& forall|i: int|
            0 <= i < self.items@.len() ==> rect_wf((#[trigger] self.items@[i]).rect)
        &&& match self.children {
            Option::None => true,
            Option::Some(b) => {
                &&& self.region.w >= 2 && self.region.h >= 2
                &&& b.nw.region == quad_nw(self.region)
                &&& b.ne.region == quad_ne(self.region)
                &&& b.sw.region == quad_sw(self.region)
                &&& b.se.region == quad_se(self.region)
                &&& b.nw.wf() && b.ne.wf() && b.sw.wf() && b.se.wf()
                &&& forall|s: ActorData| #[trigger]
                    b.nw.contents().contains(s) ==> delegated_inv(
                        self.region,
                        b.nw,
                        b.ne,
                        b.sw,
                        b.se,
                        s,
                    )
                &&& forall|s: ActorData| #[trigger]
                    b.ne.contents().contains(s) ==> delegated_inv(
                        self.region,
                        b.nw,
                        b.ne,
                        b.sw,
                        b.se,
                        s,
                    )
                &&& forall|s: ActorData| #[trigger]
                    b.sw.contents().contains(s) ==> delegated_inv(
                        self.region,
                        b.nw,
                        b.ne,
                        b.sw,
                        b.se,
                        s,
                    )
                &&& forall|s: ActorData| #[trigger]
                    b.se.contents().contains(s) ==> delegated_inv(
                        self.region,
                        b.nw,
                        b.ne,
                        b.sw,
                        b.se,
                        s,
                    )
            },
        }
    }

    /// A fresh index over `region` with the default split thresholds.
    pub fn new(region: SpriteRectangle) -> (t: Quadtree)
        requires
            rect_wf(region),
        ensures
            t.wf(),
            t.region_of() == region,
            t.contents() == Set::<ActorData>::empty(),
    {
        Quadtree::with_thresholds(region, DEFAULT_CAPACITY, DEFAULT_MIN_DIMENSION)
    }

    /// A fresh index over `region` that splits a node once it would hold
    /// more than `capacity` snapshots, unless the region is already at most
    /// `min_dim` on either axis.
    pub fn with_thresholds(region: SpriteRectangle, capacity: usize, min_dim: u32) -> (t: Quadtree)
        requires
            rect_wf(region),
            capacity >= 1,
            min_dim >= 1,
        ensures
            t.wf(),
            t.region_of() == region,
            t.contents() == Set::<ActorData>::empty(),
    {
        let t = Quadtree { region, capacity, min_dim, items: Vec::new(), children: Option::None };
        proof {
            assert(t.contents() =~= Set::<ActorData>::empty());
        }
        t
    }

    /// Stores one snapshot.  The snapshot lands in every child quadrant it
    /// overlaps when it fits inside this node's region, and in the node's
    /// own list otherwise; the set of stored snapshots grows by exactly
    /// this snapshot.
    pub fn insert(&mut self, item: ActorData)
        requires
            old(self).wf(),
            rect_wf(item.rect),
        ensures
            final(self).wf(),
            final(self).region_of() == old(self).region_of(),
            final(self).contents() == old(self).contents().insert(item),
        decreases old(self).region_of().w + old(self).region_of().h, 1int,
    {
        broadcast use vstd::prelude::Seq::lemma_push_to_set_commute;

        let ghost pre = *self;
        match &mut self.children {
            Option::Some(b) => {
                if self.region.contains_rect(&item.rect) {
                    proof {
                        lemma_quadrants(pre.region);
                    }
                    let ghost bnw = b.nw;
                    let ghost bne = b.ne;
                    let ghost bsw = b.sw;
                    let ghost bse = b.se;
                    if item.rect.overlaps(&b.nw.region) {
                        b.nw.insert(item);
                    }
                    if item.rect.overlaps(&b.ne.region) {
                        b.ne.insert(item);
                    }
                    if item.rect.overlaps(&b.sw.region) {
                        b.sw.insert(item);
                    }
                    if item.rect.overlaps(&b.se.region) {
                        b.se.insert(item);
                    }
                    proof {
                        // the snapshot overlaps at least one quadrant: its
                        // own corner lies in the region, hence in a quadrant
                        let px = item.rect.x as int;
                        let py = item.rect.y as int;
                        assert(rect_has_point(item.rect, px, py));
                        assert(rect_has_point(pre.region, px, py));
                        if rect_has_point(quad_nw(pre.region), px, py) {
                            lemma_overlaps_iff_common_point(item.rect, bnw.region);
                        } else if rect_has_point(quad_ne(pre.region), px, py) {
                            lemma_overlaps_iff_common_point(item.rect, bne.region);
                        } else if rect_has_point(quad_sw(pre.region), px, py) {
                            lemma_overlaps_iff_common_point(item.rect, bsw.region);
                        } else {
                            lemma_overlaps_iff_common_point(item.rect, bse.region);
                        }
                        assert(self.contents() =~= pre.contents().insert(item));
                        assert forall|s: ActorData| #[trigger]
                            self.children.unwrap().nw.contents().contains(s)
                                || self.children.unwrap().ne.contents().contains(s)
                                || self.children.unwrap().sw.contents().contains(s)
                                || self.children.unwrap().se.contents().contains(
                                s,
                            ) implies delegated_inv(
                            self.region,
                            self.children.unwrap().nw,
                            self.children.unwrap().ne,
                            self.children.unwrap().sw,
                            self.children.unwrap().se,
                            s,
                        ) by {
                            if s != item {
                                assert(bnw.contents().contains(s) || bne.contents().contains(s)
                                    || bsw.contents().contains(s) || bse.contents().contains(s));
                            }
                        }
                        assert(self.wf());
                    }
                }  else {
                    self.items.push(item);
                    proof {
                        assert(self.contents() =~= pre.contents().insert(item));
                        assert(self.wf());
                    }
                }
            }
            Option::None => {
                self.items.push(item);
                proof {
                    assert(self.contents() =~= pre.contents().insert(item));
                }
                if self.items.len() > self.capacity && self.region.w > self.min_dim
                    && self.region.h > self.min_dim {
                    self.split();
                }
            }
        }
    }

    /// Splits a leaf: allocates the four quadrant children and hands every
    /// snapshot that fits inside the region down into the quadrants it
    /// overlaps; snapshots that do not fit stay in the node's own list.
    fn split(&mut self)
        requires
            old(self).wf(),
            old(self).children is None,
            old(self).region.w >= 2,
            old(self).region.h >= 2,
        ensures
            final(self).wf(),
            final(self).region_of() == old(self).region_of(),
            final(self).contents() == old(self).contents(),
        decreases old(self).region_of().w + old(self).region_of().h, 0int,
    {
        broadcast use vstd::prelude::Seq::lemma_push_to_set_commute;

        let region = self.region;
        let capacity = self.capacity;
        let min_dim = self.min_dim;
        proof {
            lemma_quadrants(region);
        }
        let half_w = region.w / 2;
        let half_h = region.h / 2;
        let mut nw = Quadtree::with_thresholds(
            SpriteRectangle::new(region.x, region.y, half_w, half_h),
            capacity,
            min_dim,
        );
        let mut ne = Quadtree::with_thresholds(
            SpriteRectangle::new(region.x + half_w as i32, region.y, region.w - half_w, half_h),
            capacity,
            min_dim,
        );
        let mut sw = Quadtree::with_thresholds(
            SpriteRectangle::new(region.x, region.y + half_h as i32, half_w, region.h - half_h),
            capacity,
            min_dim,
        );
        let mut se = Quadtree::with_thresholds(
            SpriteRectangle::new(
                region.x + half_w as i32,
                region.y + half_h as i32,
                region.w - half_w,
                region.h - half_h,
            ),
            capacity,
            min_dim,
        );
        proof {
            assert(nw.region_of() == quad_nw(region));
            assert(ne.region_of() == quad_ne(region));
            assert(sw.region_of() == quad_sw(region));
            assert(se.region_of() == quad_se(region));
        }
        let mut kept: Vec<ActorData> = Vec::new();
        let n = self.items.len();
        let mut i: usize = 0;
        while i < n
            invariant
                n == self.items@.len(),
                i <= n,
                *self == (Quadtree { items: self.items, ..*old(self) }),
                self.items@ == old(self).items@,
                old(self).wf(),
                rect_wf(region),
                region == old(self).region,
                region.w >= 2,
                region.h >= 2,
                nw.wf() && ne.wf() && sw.wf() && se.wf(),
                nw.region_of() == quad_nw(region),
                ne.region_of() == quad_ne(region),
                sw.region_of() == quad_sw(region),
                se.region_of() == quad_se(region),
                forall|j: int| 0 <= j < kept@.len() ==> rect_wf((#[trigger] kept@[j]).rect),
                forall|s: ActorData| #[trigger]
                    nw.contents().contains(s) ==> delegated_inv(region, nw, ne, sw, se, s),
                forall|s: ActorData| #[trigger]
                    ne.contents().contains(s) ==> delegated_inv(region, nw, ne, sw, se, s),
                forall|s: ActorData| #[trigger]
                    sw.contents().contains(s) ==> delegated_inv(region, nw, ne, sw, se, s),
                forall|s: ActorData| #[trigger]
                    se.contents().contains(s) ==> delegated_inv(region, nw, ne, sw, se, s),
                kept@.to_set() + nw.contents() + ne.contents() + sw.contents() + se.contents()
                    =~= self.items@.take(i as int).to_set(),
            decreases n - i,
        {
            let it = self.items[i];
            let ghost pnw = nw;
            let ghost pne = ne;
            let ghost psw = sw;
            let ghost pse = se;
            let ghost pkept = kept@;
            if region.contains_rect(&it.rect) {
                if it.rect.overlaps(&nw.region) {
                    nw.insert(it);
                }
                if it.rect.overlaps(&ne.region) {
                    ne.insert(it);
                }
                if it.rect.overlaps(&sw.region) {
                    sw.insert(it);
                }
                if it.rect.overlaps(&se.region) {
                    se.insert(it);
                }
                proof {
                    let px = it.rect.x as int;
                    let py = it.rect.y as int;
                    assert(rect_has_point(it.rect, px, py));
                    assert(rect_has_point(region, px, py));
                    if rect_has_point(quad_nw(region), px, py) {
                        lemma_overlaps_iff_common_point(it.rect, pnw.region);
                    } else if rect_has_point(quad_ne(region), px, py) {
                        lemma_overlaps_iff_common_point(it.rect, pne.region);
                    } else if rect_has_point(quad_sw(region), px, py) {
                        lemma_overlaps_iff_common_point(it.rect, psw.region);
                    } else {
                        lemma_overlaps_iff_common_point(it.rect, pse.region);
                    }
                    assert forall|s: ActorData| #[trigger]
                        nw.contents().contains(s) || ne.contents().contains(s)
                            || sw.contents().contains(s) || se.contents().contains(
                            s,
                        ) implies delegated_inv(region, nw, ne, sw, se, s) by {
                        if s != it {
                            assert(pnw.contents().contains(s) || pne.contents().contains(s)
                                || psw.contents().contains(s) || pse.contents().contains(s));
                        }
                    }
                    assert(nw.contents().contains(it) || ne.contents().contains(it)
                        || sw.contents().contains(it) || se.contents().contains(it));
                    let s0 = self.items@.take(i as int);
                    assert(self.items@.take(i + 1) =~= s0.push(it));
                    s0.lemma_push_to_set_commute(it);
                    assert(self.items@.take(i + 1).to_set() =~= s0.to_set().insert(it));
                    assert(kept@.to_set() + nw.contents() + ne.contents() + sw.contents()
                        + se.contents() =~= self.items@.take(i + 1).to_set());
                }
            } else {
                kept.push(it);
                proof {
                    let s0 = self.items@.take(i as int);
                    assert(self.items@.take(i + 1) =~= s0.push(it));
                    s0.lemma_push_to_set_commute(it);
                    assert(self.items@.take(i + 1).to_set() =~= s0.to_set().insert(it));
                    assert(kept@ =~= pkept.push(it));
                    pkept.lemma_push_to_set_commute(it);
                    assert(kept@.to_set() =~= pkept.to_set().insert(it));
                    assert(kept@.to_set() + nw.contents() + ne.contents() + sw.contents()
                        + se.contents() =~= self.items@.take(i + 1).to_set());
                }
            }
            i = i + 1;
        }
        proof {
            assert(self.items@.take(n as int) =~= self.items@);
        }
        let ghost pre = *self;
        self.items = kept;
        self.children = Option::Some(
            Box::new(QuadBranches { nw, ne, sw, se }),
        );
        proof {
            assert(self.contents() =~= pre.contents());
            assert(self.wf());
        }
    }

    /// Collects the broad-phase collision candidates for `q`: every
    /// snapshot stored in a node whose region overlaps `q`.  The result is
    /// a superset of the stored snapshots whose rectangles overlap `q` —
    /// the index never omits a true overlap.
    pub fn retrieve(&self, q: &SpriteRectangle) -> (out: Vec<ActorData>)
        requires
            self.wf(),
            q.w > 0,
            q.h > 0,
        ensures
            forall|s: ActorData|
                self.contents().contains(s) && spec_overlaps(s.rect, *q) ==> out@.contains(s),
            forall|x: ActorData|
                out@.contains(x) ==> self.contents().contains(x) && rect_wf(x.rect),
    {
        let mut out: Vec<ActorData> = Vec::new();
        self.collect_into(q, &mut out);
        out
    }

    /// Appends this subtree's candidates for `q` to `out`, never dropping
    /// anything already collected.
    fn collect_into(&self, q: &SpriteRectangle, out: &mut Vec<ActorData>)
        requires
            self.wf(),
            q.w > 0,
            q.h > 0,
        ensures
            forall|x: ActorData| old(out)@.contains(x) ==> final(out)@.contains(x),
            forall|s: ActorData|
                self.contents().contains(s) && spec_overlaps(s.rect, *q) ==> final(out)@.contains(
                    s,
                ),
            forall|x: ActorData|
                final(out)@.contains(x) ==> old(out)@.contains(x) || (self.contents().contains(x)
                    && rect_wf(x.rect)),
        decreases self.region_of().w + self.region_of().h,
    {
        let n = self.items.len();
        let mut i: usize = 0;
        while i < n
            invariant
                self.wf(),
                n == self.items@.len(),
                i <= n,
                forall|x: ActorData| old(out)@.contains(x) ==> out@.contains(x),
                forall|j: int| 0 <= j < i ==> out@.contains(#[trigger] self.items@[j]),
                forall|x: ActorData|
                    out@.contains(x) ==> old(out)@.contains(x) || (self.items@.contains(x)
                        && rect_wf(x.rect)),
            decreases n - i,
        {
            let ghost prev = out@;
            out.push(self.items[i]);
            proof {
                assert forall|x: ActorData| prev.contains(x) implies out@.contains(x) by {
                    let j = choose|j: int| 0 <= j < prev.len() && prev[j] == x;
                    assert(out@[j] == x);
                }
                assert(out@[prev.len() as int] == self.items@[i as int]);
                assert(rect_wf(self.items@[i as int].rect));
                assert forall|x: ActorData|
                    out@.contains(x) implies prev.contains(x) || (self.items@.contains(x)
                        && rect_wf(x.rect)) by {
                    let jx = choose|jx: int| 0 <= jx < out@.len() && out@[jx] == x;
                    if jx < prev.len() {
                        assert(prev[jx] == x);
                    } else {
                        assert(x == self.items@[i as int]);
                    }
                }
            }
            i = i + 1;
        }
        let ghost o0 = out@;
        match &self.children {
            Option::None => {
                proof {
                    assert forall|s: ActorData|
                        self.contents().contains(s) && spec_overlaps(s.rect, *q) implies out@.contains(
                        s,
                    ) by {
                        assert(self.items@.to_set().contains(s));
                        let j = choose|j: int|
                            0 <= j < self.items@.len() && self.items@[j] == s;
                        assert(out@.contains(self.items@[j]));
                    }
                    assert forall|x: ActorData|
                        out@.contains(x) implies old(out)@.contains(x) || (
                        self.contents().contains(x) && rect_wf(x.rect)) by {
                        if !old(out)@.contains(x) && self.items@.contains(x) {
                            assert(self.items@.to_set().contains(x));
                        }
                    }
                }
            }
            Option::Some(b) => {
                if b.nw.region.overlaps(q) {
                    b.nw.collect_into(q, out);
                }
                let ghost o1 = out@;
                if b.ne.region.overlaps(q) {
                    b.ne.collect_into(q, out);
                }
                let ghost o2 = out@;
                if b.sw.region.overlaps(q) {
                    b.sw.collect_into(q, out);
                }
                let ghost o3 = out@;
                if b.se.region.overlaps(q) {
                    b.se.collect_into(q, out);
                }
                proof {
                    lemma_quadrants(self.region);
                    assert forall|x: ActorData|
                        out@.contains(x) implies old(out)@.contains(x) || (
                        self.contents().contains(x) && rect_wf(x.rect)) by {
                        if !old(out)@.contains(x) {
                            if o0.contains(x) {
                                assert(self.items@.contains(x));
                                assert(self.items@.to_set().contains(x));
                            } else if o1.contains(x) {
                                assert(b.nw.contents().contains(x));
                            } else if o2.contains(x) {
                                assert(b.ne.contents().contains(x));
                            } else if o3.contains(x) {
                                assert(b.sw.contents().contains(x));
                            } else {
                                assert(b.se.contents().contains(x));
                            }
                        }
                    }
                    assert forall|s: ActorData|
                        self.contents().contains(s) && spec_overlaps(s.rect, *q) implies out@.contains(
                        s,
                    ) by {
                        if self.items@.to_set().contains(s) {
                            let j = choose|j: int|
                                0 <= j < self.items@.len() && self.items@[j] == s;
                            assert(o0.contains(self.items@[j]));
                            assert(o1.contains(s));
                            assert(o2.contains(s));
                            assert(o3.contains(s));
                        } else {
                            assert(b.nw.contents().contains(s) || b.ne.contents().contains(s)
                                || b.sw.contents().contains(s) || b.se.contents().contains(s));
                            assert(delegated_inv(self.region, b.nw, b.ne, b.sw, b.se, s));
                            lemma_overlaps_iff_common_point(s.rect, *q);
                            let (px, py) = choose|px: int, py: int|
                                rect_has_point(s.rect, px, py) && rect_has_point(*q, px, py);
                            lemma_contains_is_point_subset(self.region, s.rect);
                            assert(rect_has_point(self.region, px, py));
                            if rect_has_point(quad_nw(self.region), px, py) {
                                lemma_overlaps_iff_common_point(s.rect, b.nw.region);
                                lemma_overlaps_iff_common_point(b.nw.region, *q);
                                assert(b.nw.contents().contains(s));
                                assert(o1.contains(s));
                                assert(o2.contains(s));
                                assert(o3.contains(s));
                            } else if rect_has_point(quad_ne(self.region), px, py) {
                                lemma_overlaps_iff_common_point(s.rect, b.ne.region);
                                lemma_overlaps_iff_common_point(b.ne.region, *q);
                                assert(b.ne.contents().contains(s));
                                assert(o2.contains(s));
                                assert(o3.contains(s));
                            } else if rect_has_point(quad_sw(self.region), px, py) {
                                lemma_overlaps_iff_common_point(s.rect, b.sw.region);
                                lemma_overlaps_iff_common_point(b.sw.region, *q);
                                assert(b.sw.contents().contains(s));
                                assert(o3.contains(s));
                            } else {
                                lemma_overlaps_iff_common_point(s.rect, b.se.region);
                                lemma_overlaps_iff_common_point(b.se.region, *q);
                                assert(b.se.contents().contains(s));
                            }
                        }
                    }
                }
            }
        }
    }
}

} // verus!
