//! Axis-aligned rectangle geometry: the shared vocabulary of the collision
//! classifier, the quadtree and the viewport.
//!
//! A rectangle is well formed when its extents are positive and everything
//! stays inside a fixed world bound, so that every sum a consumer forms fits
//! comfortably in `i32` arithmetic.

use vstd::prelude::*;

verus! {

/// Half-side of the square world every well-formed rectangle lies in.
/// Keeping whole rectangles inside the bound means any sum of two
/// coordinates fits in `i32` and any difference fits in `i64`, and that
/// subdividing a region into quadrants keeps the quadrants well formed.
pub const WORLD_BOUND: i32 = 500_000_000;

/// A mutable rectangle for an entity so it can be moved around.
#[derive(Clone, Copy, PartialEq, Eq, Structural, Debug)]
pub struct SpriteRectangle {
    pub x: i32,
    pub y: i32,
    pub w: u32,
    pub h: u32,
}

/// Well-formedness of a rectangle: positive extents, and the whole
/// rectangle lies inside the world square of half-side `WORLD_BOUND`.
pub open spec fn rect_wf(r: SpriteRectangle) -> bool {
    &&& 0 < r.w as int
    &&& 0 < r.h as int
    &&& -(WORLD_BOUND as int) <= r.x as int
    &&& r.x as int + r.w as int <= WORLD_BOUND as int
    &&& -(WORLD_BOUND as int) <= r.y as int
    &&& r.y as int + r.h as int <= WORLD_BOUND as int
}

/// The point `(px, py)` lies inside `r` (unit cells: a rectangle of width w
/// covers the integer columns `x .. x + w - 1`).
pub open spec fn rect_has_point(r: SpriteRectangle, px: int, py: int) -> bool {
    &&& r.x as int <= px < r.x as int + r.w as int
    &&& r.y as int <= py < r.y as int + r.h as int
}

/// `inner` lies entirely within `outer` (edges may touch).
pub open spec fn spec_contains(outer: SpriteRectangle, inner: SpriteRectangle) -> bool {
    &&& outer.x as int <= inner.x as int
    &&& inner.x as int + inner.w as int <= outer.x as int + outer.w as int
    &&& outer.y as int <= inner.y as int
    &&& inner.y as int + inner.h as int <= outer.y as int + outer.h as int
}

/// `a` and `b` share at least one unit cell; rectangles that merely touch
/// along an edge do not overlap.
pub open spec fn spec_overlaps(a: SpriteRectangle, b: SpriteRectangle) -> bool {
    &&& (a.x as int) < b.x as int + b.w as int
    &&& (b.x as int) < a.x as int + a.w as int
    &&& (a.y as int) < b.y as int + b.h as int
    &&& (b.y as int) < a.y as int + a.h as int
}

impl SpriteRectangle {
    /// A rectangle with positive extents; one with a zero extent is
    /// rejected at construction, never silently accepted.
    pub fn new(x: i32, y: i32, w: u32, h: u32) -> (r: SpriteRectangle)
        requires
            0 < w,
            0 < h,
        ensures
            r == (SpriteRectangle { x, y, w, h }),
    {
        SpriteRectangle { x, y, w, h }
    }

    /// True iff `other` lies entirely within `self`.
    pub fn contains_rect(&self, other: &SpriteRectangle) -> (r: bool)
        ensures
            r == spec_contains(*self, *other),
    {
        self.x as i64 <= other.x as i64
            && other.x as i64 + other.w as i64 <= self.x as i64 + self.w as i64
            && self.y as i64 <= other.y as i64
            && other.y as i64 + other.h as i64 <= self.y as i64 + self.h as i64
    }

    /// True iff `self` and `other` share at least one unit cell.
    pub fn overlaps(&self, other: &SpriteRectangle) -> (r: bool)
        ensures
            r == spec_overlaps(*self, *other),
    {
        (self.x as i64) < other.x as i64 + other.w as i64
            && (other.x as i64) < self.x as i64 + self.w as i64
            && (self.y as i64) < other.y as i64 + other.h as i64
            && (other.y as i64) < self.y as i64 + self.h as i64
    }
}

/// True iff `inner` lies entirely within `outer`.
pub fn rect_contains_rect(outer: &SpriteRectangle, inner: &SpriteRectangle) -> (r: bool)
    ensures
        r == spec_contains(*outer, *inner),
{
    outer.contains_rect(inner)
}

/// Overlap is symmetric.
pub proof fn lemma_overlaps_symm(a: SpriteRectangle, b: SpriteRectangle)
    ensures
        spec_overlaps(a, b) == spec_overlaps(b, a),
{
}

/// Every rectangle contains itself.
pub proof fn lemma_contains_refl(a: SpriteRectangle)
    ensures
        spec_contains(a, a),
{
}

/// Containment is exactly point-set inclusion: a rectangle `b` with positive
/// extents lies within `a` iff every point of `b` is a point of `a`.
pub proof fn lemma_contains_is_point_subset(a: SpriteRectangle, b: SpriteRectangle)
    requires
        b.w > 0,
        b.h > 0,
    ensures
        spec_contains(a, b) <==> (forall|px: int, py: int|
            rect_has_point(b, px, py) ==> rect_has_point(a, px, py)),
{
    if forall|px: int, py: int| rect_has_point(b, px, py) ==> rect_has_point(a, px, py) {
        assert(rect_has_point(b, b.x as int, b.y as int));
        assert(rect_has_point(b, b.x as int + b.w as int - 1, b.y as int + b.h as int - 1));
        assert(rect_has_point(a, b.x as int, b.y as int));
        assert(rect_has_point(a, b.x as int + b.w as int - 1, b.y as int + b.h as int - 1));
    }
}

/// Two rectangles with positive extents overlap exactly when they share a
/// point.
pub proof fn lemma_overlaps_iff_common_point(a: SpriteRectangle, b: SpriteRectangle)
    requires
        a.w > 0,
        a.h > 0,
        b.w > 0,
        b.h > 0,
    ensures
        spec_overlaps(a, b) <==> (exists|px: int, py: int|
            rect_has_point(a, px, py) && rect_has_point(b, px, py)),
{
    if spec_overlaps(a, b) {
        let px = if a.x as int <= b.x as int { b.x as int } else { a.x as int };
        let py = if a.y as int <= b.y as int { b.y as int } else { a.y as int };
        assert(rect_has_point(a, px, py) && rect_has_point(b, px, py));
    }
}

} // verus!
