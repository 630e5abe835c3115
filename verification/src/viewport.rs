//! The active viewport: the window-sized region of the world that is
//! simulated and drawn each frame, centered on a point the frame
//! orchestrator moves to follow the player.

use vstd::prelude::*;
use crate::geometry::SpriteRectangle;
use crate::geometry::WORLD_BOUND;
use crate::geometry::spec_overlaps;

verus! {

/// The window the game renders into.
#[derive(Clone, Debug)]
pub struct Window {
    /// Title shown by the windowing system.
    pub title: String,
    /// Width of the drawable area in pixels.
    pub width: u32,
    /// Height of the drawable area in pixels.
    pub height: u32,
}

/// A window is usable when its area is positive and fits in the world.
pub open spec fn window_wf(w: Window) -> bool {
    &&& 0 < w.width as int <= WORLD_BOUND as int
    &&& 0 < w.height as int <= WORLD_BOUND as int
}

/// A window-sized view of the world, centered on `(x, y)`.
#[derive(Clone, Copy, PartialEq, Eq, Structural, Debug)]
pub struct Viewport {
    /// Horizontal center of the view in world coordinates.
    pub x: i32,
    /// Vertical center of the view in world coordinates.
    pub y: i32,
    /// Width of the view.
    pub width: u32,
    /// Height of the view.
    pub height: u32,
}

/// The viewport's center stays in the world square and its extents are
/// positive and at most the world bound.
pub open spec fn viewport_wf(v: Viewport) -> bool {
    &&& -(WORLD_BOUND as int) <= v.x as int <= WORLD_BOUND as int
    &&& -(WORLD_BOUND as int) <= v.y as int <= WORLD_BOUND as int
    &&& 0 < v.width as int <= WORLD_BOUND as int
    &&& 0 < v.height as int <= WORLD_BOUND as int
}

/// The world rectangle the viewport shows: the window-sized box centered
/// on `(x, y)`.
pub open spec fn spec_view_rect(v: Viewport) -> SpriteRectangle {
    SpriteRectangle {
        x: (v.x - (v.width / 2) as i32) as i32,
        y: (v.y - (v.height / 2) as i32) as i32,
        w: v.width,
        h: v.height,
    }
}

impl Viewport {
    /// A viewport the size of `window`, centered on `center`.
    pub fn new(window: &Window, center: (i32, i32)) -> (v: Viewport)
        ensures
            v == (Viewport { x: center.0, y: center.1, width: window.width, height: window.height }),
    {
        Viewport { x: center.0, y: center.1, width: window.width, height: window.height }
    }

    /// Moves the center by `change`.
    pub fn update(&mut self, change: (i32, i32))
        requires
            i32::MIN <= old(self).x as int + change.0 as int <= i32::MAX,
            i32::MIN <= old(self).y as int + change.1 as int <= i32::MAX,
        ensures
            final(self).x as int == old(self).x as int + change.0 as int,
            final(self).y as int == old(self).y as int + change.1 as int,
            final(self).width == old(self).width && final(self).height == old(self).height,
    {
        self.x = self.x + change.0;
        self.y = self.y + change.1;
    }

    /// Puts the center on `position`.
    pub fn set_position(&mut self, position: (i32, i32))
        ensures
            *final(self) == (Viewport { x: position.0, y: position.1, ..*old(self) }),
    {
        self.x = position.0;
        self.y = position.1;
    }

    /// True iff `point` lies in the closed window-sized box around the
    /// center.
    pub fn in_viewport(&self, point: (i32, i32)) -> (r: bool)
        requires
            viewport_wf(*self),
        ensures
            r == {
                &&& self.x as int - (self.width / 2) as int <= point.0 as int <= self.x as int + (
                self.width / 2) as int
                &&& self.y as int - (self.height / 2) as int <= point.1 as int <= self.y as int + (
                self.height / 2) as int
            },
    {
        let half_w = (self.width / 2) as i32;
        let half_h = (self.height / 2) as i32;
        point.0 >= self.x - half_w && point.0 <= self.x + half_w && point.1 >= self.y - half_h
            && point.1 <= self.y + half_h
    }

    /// The point in the game relative to the viewport center.
    pub fn relative_point(&self, map_point: (i32, i32)) -> (r: (i32, i32))
        requires
            viewport_wf(*self),
            -(WORLD_BOUND as int) * 2 <= map_point.0 as int - self.x as int,
            map_point.0 as int - self.x as int <= (WORLD_BOUND as int) * 2,
            -(WORLD_BOUND as int) * 2 <= map_point.1 as int - self.y as int,
            map_point.1 as int - self.y as int <= (WORLD_BOUND as int) * 2,
        ensures
            r.0 as int == map_point.0 as int - self.x as int,
            r.1 as int == map_point.1 as int - self.y as int,
    {
        (map_point.0 - self.x, map_point.1 - self.y)
    }

    /// Returns the rectangle unchanged when it intersects the viewport's
    /// world rectangle, and nothing when it lies wholly outside — the
    /// frame orchestrator freezes entities it returns nothing for.
    pub fn constrain_to_viewport(&self, rect: &SpriteRectangle) -> (r: Option<SpriteRectangle>)
        requires
            viewport_wf(*self),
        ensures
            r is Some <==> spec_overlaps(*rect, spec_view_rect(*self)),
            r is Some ==> r == Option::Some(*rect),
    {
        let view = SpriteRectangle {
            x: self.x - (self.width / 2) as i32,
            y: self.y - (self.height / 2) as i32,
            w: self.width,
            h: self.height,
        };
        if rect.overlaps(&view) {
            Option::Some(*rect)
        } else {
            Option::None
        }
    }
}

} // verus!
