//! Directional collision classification and discrete resolution.
//!
//! `classify_side` names the side of the moving rectangle through which it
//! penetrates the other one, chosen as the side with the smallest
//! penetration depth (minimum-translation heuristic) with a deterministic
//! tie-break: on equal depth the vertical axis wins, and within an axis the
//! leading direction (right, bottom) wins.  `resolve_collision` is the
//! deliberately discrete un-stick loop: it nudges the moving rectangle one
//! unit at a time against the penetration axis until the classifier no
//! longer reports the side, which leaves the rectangles exactly touching.

use vstd::prelude::*;
use crate::geometry::SpriteRectangle;
use crate::geometry::rect_wf;
use crate::geometry::spec_overlaps;

verus! {

/// The side of the moving rectangle on which a collision registers.
#[derive(Clone, Copy, PartialEq, Eq, Structural, Debug)]
pub enum CollisionSide {
    Top,
    Bottom,
    Left,
    Right,
}

/// Bit for a top-side collision in a collision filter.
pub const SIDE_TOP: u8 = 1;

/// Bit for a bottom-side collision in a collision filter.
pub const SIDE_BOTTOM: u8 = 2;

/// Bit for a left-side collision in a collision filter.
pub const SIDE_LEFT: u8 = 4;

/// Bit for a right-side collision in a collision filter.
pub const SIDE_RIGHT: u8 = 8;

/// A collision filter that registers every side.
pub const SIDE_ALL: u8 = 15;

/// The filter bit of one collision side.
pub open spec fn spec_side_mask(side: CollisionSide) -> u8 {
    match side {
        CollisionSide::Top => SIDE_TOP,
        CollisionSide::Bottom => SIDE_BOTTOM,
        CollisionSide::Left => SIDE_LEFT,
        CollisionSide::Right => SIDE_RIGHT,
    }
}

/// The filter bit of one collision side.
pub fn side_mask(side: CollisionSide) -> (r: u8)
    ensures
        r == spec_side_mask(side),
{
    match side {
        CollisionSide::Top => SIDE_TOP,
        CollisionSide::Bottom => SIDE_BOTTOM,
        CollisionSide::Left => SIDE_LEFT,
        CollisionSide::Right => SIDE_RIGHT,
    }
}

/// Depth of penetration of `a`'s right edge past `b`'s left edge.
pub open spec fn depth_right(a: SpriteRectangle, b: SpriteRectangle) -> int {
    a.x as int + a.w as int - b.x as int
}

/// Depth of penetration of `a`'s left edge past `b`'s right edge.
pub open spec fn depth_left(a: SpriteRectangle, b: SpriteRectangle) -> int {
    b.x as int + b.w as int - a.x as int
}

/// Depth of penetration of `a`'s bottom edge past `b`'s top edge.
pub open spec fn depth_bottom(a: SpriteRectangle, b: SpriteRectangle) -> int {
    a.y as int + a.h as int - b.y as int
}

/// Depth of penetration of `a`'s top edge past `b`'s bottom edge.
pub open spec fn depth_top(a: SpriteRectangle, b: SpriteRectangle) -> int {
    b.y as int + b.h as int - a.y as int
}

/// The side of `a` (the moving rectangle) with the smallest penetration
/// depth into `b`, or nothing when the rectangles do not overlap.
pub open spec fn spec_classify(a: SpriteRectangle, b: SpriteRectangle) -> Option<CollisionSide> {
    if !spec_overlaps(a, b) {
        Option::None
    } else {
        let xd = if depth_right(a, b) <= depth_left(a, b) {
            depth_right(a, b)
        } else {
            depth_left(a, b)
        };
        let yd = if depth_bottom(a, b) <= depth_top(a, b) {
            depth_bottom(a, b)
        } else {
            depth_top(a, b)
        };
        if yd <= xd {
            if depth_bottom(a, b) <= depth_top(a, b) {
                Option::Some(CollisionSide::Bottom)
            } else {
                Option::Some(CollisionSide::Top)
            }
        } else {
            if depth_right(a, b) <= depth_left(a, b) {
                Option::Some(CollisionSide::Right)
            } else {
                Option::Some(CollisionSide::Left)
            }
        }
    }
}

/// A side is classified exactly when the rectangles overlap.
pub proof fn lemma_classify_iff_overlaps(a: SpriteRectangle, b: SpriteRectangle)
    ensures
        spec_classify(a, b) is Some <==> spec_overlaps(a, b),
{
}

impl SpriteRectangle {
    /// Classifies the collision of `self` (the moving rectangle) with
    /// `other`: the side of `self` with the smallest penetration depth, or
    /// nothing when the rectangles do not overlap.
    pub fn collides_with(&self, other: &SpriteRectangle) -> (r: Option<CollisionSide>)
        ensures
            r == spec_classify(*self, *other),
            r is Some <==> spec_overlaps(*self, *other),
    {
        if !self.overlaps(other) {
            return Option::None;
        }
        let dr: i64 = self.x as i64 + self.w as i64 - other.x as i64;
        let dl: i64 = other.x as i64 + other.w as i64 - self.x as i64;
        let db: i64 = self.y as i64 + self.h as i64 - other.y as i64;
        let dt: i64 = other.y as i64 + other.h as i64 - self.y as i64;
        let xd: i64 = if dr <= dl { dr } else { dl };
        let yd: i64 = if db <= dt { db } else { dt };
        if yd <= xd {
            if db <= dt {
                Option::Some(CollisionSide::Bottom)
            } else {
                Option::Some(CollisionSide::Top)
            }
        } else {
            if dr <= dl {
                Option::Some(CollisionSide::Right)
            } else {
                Option::Some(CollisionSide::Left)
            }
        }
    }
}

/// A tagged union of bounding shapes; rectangles are the one shape so far.
/// Consumers match on the full variant set so that a future shape cannot be
/// handled silently.
#[derive(Clone, Copy, PartialEq, Eq, Structural, Debug)]
pub enum BoundingBox {
    Rectangle(SpriteRectangle),
}

impl BoundingBox {
    /// The rectangle of the box.
    pub open spec fn spec_rect(self) -> SpriteRectangle {
        match self {
            BoundingBox::Rectangle(r) => r,
        }
    }

    /// The rectangle of the box.
    pub fn rect(&self) -> (r: SpriteRectangle)
        ensures
            r == self.spec_rect(),
    {
        match self {
            BoundingBox::Rectangle(r) => *r,
        }
    }

    /// Classifies the collision of this box (moving) with `other`.
    pub fn collides_with(&self, other: &BoundingBox) -> (r: Option<CollisionSide>)
        ensures
            r == spec_classify(self.spec_rect(), other.spec_rect()),
    {
        match (self, other) {
            (BoundingBox::Rectangle(a), BoundingBox::Rectangle(b)) => a.collides_with(b),
        }
    }

    /// Moves the box to the position of `rect`, keeping its own extents.
    pub fn change_pos(&mut self, rect: &SpriteRectangle)
        ensures
            final(self).spec_rect() == (SpriteRectangle {
                x: rect.x,
                y: rect.y,
                ..old(self).spec_rect()
            }),
    {
        match self {
            BoundingBox::Rectangle(r) => {
                r.x = rect.x;
                r.y = rect.y;
            }
        }
    }
}

/// Nudges `r` (the moving rectangle) one unit at a time against the
/// penetration axis of `side` until the classifier no longer reports that
/// side.  The loop performs exactly the initial penetration depth many unit
/// steps and stops the first moment the rectangles no longer overlap,
/// leaving them exactly touching on that side.
pub fn resolve_collision(r: &mut SpriteRectangle, other: &SpriteRectangle, side: CollisionSide)
    requires
        rect_wf(*old(r)),
        rect_wf(*other),
        spec_classify(*old(r), *other) == Option::Some(side),
    ensures
        final(r).w == old(r).w && final(r).h == old(r).h,
        !spec_overlaps(*final(r), *other),
        spec_classify(*final(r), *other) is None,
        match side {
            CollisionSide::Right => final(r).y == old(r).y && final(r).x as int == old(
                r,
            ).x as int - depth_right(*old(r), *other),
            CollisionSide::Left => final(r).y == old(r).y && final(r).x as int == old(
                r,
            ).x as int + depth_left(*old(r), *other),
            CollisionSide::Bottom => final(r).x == old(r).x && final(r).y as int == old(
                r,
            ).y as int - depth_bottom(*old(r), *other),
            CollisionSide::Top => final(r).x == old(r).x && final(r).y as int == old(
                r,
            ).y as int + depth_top(*old(r), *other),
        },
{
    match side {
        CollisionSide::Right => {
            loop
                invariant
                    r.y == old(r).y && r.w == old(r).w && r.h == old(r).h,
                    rect_wf(*old(r)),
                    rect_wf(*other),
                    0 <= depth_right(*r, *other) <= depth_right(*old(r), *other),
                    depth_right(*old(r), *other) <= depth_left(*old(r), *other),
                    depth_right(*old(r), *other) < depth_bottom(*old(r), *other),
                    depth_right(*old(r), *other) < depth_top(*old(r), *other),
                ensures
                    r.y == old(r).y && r.w == old(r).w && r.h == old(r).h,
                    depth_right(*r, *other) == 0,
                decreases depth_right(*r, *other),
            {
                let c = r.collides_with(other);
                let again = match c {
                    Option::Some(CollisionSide::Right) => true,
                    _ => false,
                };
                if !again {
                    break;
                }
                r.x = r.x - 1;
            }
        }
        CollisionSide::Left => {
            loop
                invariant
                    r.y == old(r).y && r.w == old(r).w && r.h == old(r).h,
                    rect_wf(*old(r)),
                    rect_wf(*other),
                    0 <= depth_left(*r, *other) <= depth_left(*old(r), *other),
                    depth_left(*old(r), *other) < depth_right(*old(r), *other),
                    depth_left(*old(r), *other) < depth_bottom(*old(r), *other),
                    depth_left(*old(r), *other) < depth_top(*old(r), *other),
                ensures
                    r.y == old(r).y && r.w == old(r).w && r.h == old(r).h,
                    depth_left(*r, *other) == 0,
                decreases depth_left(*r, *other),
            {
                let c = r.collides_with(other);
                let again = match c {
                    Option::Some(CollisionSide::Left) => true,
                    _ => false,
                };
                if !again {
                    break;
                }
                r.x = r.x + 1;
            }
        }
        CollisionSide::Bottom => {
            loop
                invariant
                    r.x == old(r).x && r.w == old(r).w && r.h == old(r).h,
                    rect_wf(*old(r)),
                    rect_wf(*other),
                    0 <= depth_bottom(*r, *other) <= depth_bottom(*old(r), *other),
                    depth_bottom(*old(r), *other) <= depth_top(*old(r), *other),
                    depth_bottom(*old(r), *other) <= depth_right(*old(r), *other),
                    depth_bottom(*old(r), *other) <= depth_left(*old(r), *other),
                ensures
                    r.x == old(r).x && r.w == old(r).w && r.h == old(r).h,
                    depth_bottom(*r, *other) == 0,
                decreases depth_bottom(*r, *other),
            {
                let c = r.collides_with(other);
                let again = match c {
                    Option::Some(CollisionSide::Bottom) => true,
                    _ => false,
                };
                if !again {
                    break;
                }
                r.y = r.y - 1;
            }
        }
        CollisionSide::Top => {
            loop
                invariant
                    r.x == old(r).x && r.w == old(r).w && r.h == old(r).h,
                    rect_wf(*old(r)),
                    rect_wf(*other),
                    0 <= depth_top(*r, *other) <= depth_top(*old(r), *other),
                    depth_top(*old(r), *other) < depth_bottom(*old(r), *other),
                    depth_top(*old(r), *other) <= depth_right(*old(r), *other),
                    depth_top(*old(r), *other) <= depth_left(*old(r), *other),
                ensures
                    r.x == old(r).x && r.w == old(r).w && r.h == old(r).h,
                    depth_top(*r, *other) == 0,
                decreases depth_top(*r, *other),
            {
                let c = r.collides_with(other);
                let again = match c {
                    Option::Some(CollisionSide::Top) => true,
                    _ => false,
                };
                if !again {
                    break;
                }
                r.y = r.y + 1;
            }
        }
    }
}

} // verus!
