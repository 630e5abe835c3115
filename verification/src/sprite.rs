//! Sprites, sprite-sheet animations, and the per-state animation cache.
//!
//! `Sprite` models the rectangle a drawable sprite occupies inside its
//! sheet; the texture itself lives outside the simulation.  `Animation`
//! cuts a sheet into equally sized frames, `AnimatedSprite` advances a
//! frame cursor over elapsed time, and `AnimationManager` memoizes the
//! active state's animation and bounding box in a hot slot so repeated
//! access to the same state costs no map lookups.  The backing map plus
//! the hot slot always form a complete, non-duplicated partition of the
//! registered states.

use vstd::prelude::*;
use std::collections::HashMap;
use crate::collision::BoundingBox;
use crate::collision::CollisionSide;
use crate::collision::spec_classify;
use crate::geometry::SpriteRectangle;
use crate::geometry::WORLD_BOUND;
use crate::geometry::rect_wf;
use crate::geometry::spec_contains;

verus! {

/// The direction a sprite is facing.
#[derive(Clone, Copy, PartialEq, Eq, Structural, Debug, Hash)]
pub enum Direction {
    Left,
    Right,
}

/// Largest sprite-sheet coordinate, frame extent or frame index: keeps
/// every product formed when cutting a sheet far inside `i32`.
pub const SHEET_BOUND: u32 = 4096;

/// How a sprite sheet is cut into animation frames.
#[derive(Clone, Copy, Debug)]
pub struct AnimationData {
    /// The width of each animation frame.
    pub width: u32,
    /// The height of each animation frame.
    pub height: u32,
    /// The number of frames in each row of the spritesheet.
    pub sprites_in_row: i32,
    /// The path to the spritesheet file.
    pub path: &'static str,
}

/// Frame extents are positive and bounded, as is the row length.
pub open spec fn anim_data_wf(d: AnimationData) -> bool {
    &&& 0 < d.width as int <= SHEET_BOUND as int
    &&& 0 < d.height as int <= SHEET_BOUND as int
    &&& 0 < d.sprites_in_row as int <= SHEET_BOUND as int
}

/// The region a drawable sprite occupies inside its sheet.  The texture
/// handle itself stays with the rendering layer; the simulation only ever
/// reads the region.
#[derive(Clone, Copy, PartialEq, Eq, Structural, Debug)]
pub struct Sprite {
    /// The sprite's region inside the sheet.
    pub src: SpriteRectangle,
}

impl Sprite {
    /// A sprite covering a whole sheet of the given extents; nothing when
    /// the extents are degenerate or beyond the world bound.
    pub fn new(width: u32, height: u32) -> (r: Option<Sprite>)
        ensures
            r is Some <==> (0 < width as int <= WORLD_BOUND as int && 0 < height as int
                <= WORLD_BOUND as int),
            r is Some ==> r == Option::Some(
                Sprite { src: (SpriteRectangle { x: 0, y: 0, w: width, h: height }) },
            ),
            r is Some ==> rect_wf(r.unwrap().src),
    {
        if 0 < width && width <= WORLD_BOUND as u32 && 0 < height && height <= WORLD_BOUND as u32 {
            Option::Some(Sprite { src: SpriteRectangle { x: 0, y: 0, w: width, h: height } })
        } else {
            Option::None
        }
    }

    /// The sub-sprite at `rect`, read relative to this sprite's region;
    /// nothing when `rect` reaches outside the region.
    pub fn region(&self, rect: &SpriteRectangle) -> (r: Option<Sprite>)
        requires
            rect_wf(self.src),
            rect_wf(*rect),
        ensures
            r is Some <==> spec_contains(
                self.src,
                (SpriteRectangle {
                    x: (rect.x + self.src.x) as i32,
                    y: (rect.y + self.src.y) as i32,
                    w: rect.w,
                    h: rect.h,
                }),
            ),
            r is Some ==> r == Option::Some(
                Sprite {
                    src: (SpriteRectangle {
                        x: (rect.x + self.src.x) as i32,
                        y: (rect.y + self.src.y) as i32,
                        w: rect.w,
                        h: rect.h,
                    }),
                },
            ),
            r is Some ==> rect_wf(r.unwrap().src),
    {
        let new_src = SpriteRectangle {
            x: rect.x + self.src.x,
            y: rect.y + self.src.y,
            w: rect.w,
            h: rect.h,
        };
        if self.src.contains_rect(&new_src) {
            Option::Some(Sprite { src: new_src })
        } else {
            Option::None
        }
    }

    /// The sprite's extents.
    pub fn size(&self) -> (r: (u32, u32))
        ensures
            r == (self.src.w, self.src.h),
    {
        (self.src.w, self.src.h)
    }
}

/// A sprite sheet together with its frame geometry.
#[derive(Clone, Copy, Debug)]
pub struct Animation {
    data: AnimationData,
    spritesheet: Sprite,
}

/// The sheet region of frame `idx` of a sheet cut as `d` says.
pub open spec fn spec_frame_rect(d: AnimationData, idx: int) -> SpriteRectangle {
    SpriteRectangle {
        x: (d.width as int * (idx % d.sprites_in_row as int)) as i32,
        y: (d.height as int * (idx / d.sprites_in_row as int)) as i32,
        w: d.width,
        h: d.height,
    }
}

impl Animation {
    /// The frame geometry.
    pub closed spec fn data_of(self) -> AnimationData {
        self.data
    }

    /// The sheet.
    pub closed spec fn sheet_of(self) -> Sprite {
        self.spritesheet
    }

    /// Whether geometry and sheet are usable.
    pub open spec fn wf(self) -> bool {
        &&& anim_data_wf(self.data_of())
        &&& rect_wf(self.sheet_of().src)
    }

    /// Pairs frame geometry with a loaded sheet; nothing when the
    /// geometry is degenerate — a bad animation definition aborts
    /// construction rather than produce a frozen animation.
    pub fn new(data: AnimationData, spritesheet: Sprite) -> (r: Option<Animation>)
        requires
            rect_wf(spritesheet.src),
        ensures
            r is Some <==> anim_data_wf(data),
            r is Some ==> r.unwrap().wf() && r.unwrap().data_of() == data && r.unwrap().sheet_of()
                == spritesheet,
    {
        if 0 < data.width && data.width <= SHEET_BOUND && 0 < data.height && data.height
            <= SHEET_BOUND && 0 < data.sprites_in_row && data.sprites_in_row <= SHEET_BOUND as i32 {
            Option::Some(Animation { data, spritesheet })
        } else {
            Option::None
        }
    }

    /// The frame sprite at `idx`, or nothing when the frame's region
    /// reaches outside the sheet.
    pub open spec fn spec_frame(self, idx: int) -> Option<Sprite> {
        let fr = spec_frame_rect(self.data_of(), idx);
        let translated = SpriteRectangle {
            x: (fr.x + self.sheet_of().src.x) as i32,
            y: (fr.y + self.sheet_of().src.y) as i32,
            w: fr.w,
            h: fr.h,
        };
        if spec_contains(self.sheet_of().src, translated) {
            Option::Some(Sprite { src: translated })
        } else {
            Option::None
        }
    }

    /// The frames `start .. end` that lie inside the sheet, in order.
    pub open spec fn spec_range(self, start: int, end: int) -> Seq<Sprite>
        decreases end - start,
    {
        if start >= end {
            Seq::empty()
        } else {
            (match self.spec_frame(start) {
                Option::Some(s) => seq![s],
                Option::None => Seq::empty(),
            }) + self.spec_range(start + 1, end)
        }
    }

    /// Cuts the frames `start .. end` out of the sheet, skipping frames
    /// that reach outside it.  Indices are bounded by `SHEET_BOUND`: a
    /// sheet never holds more rows or columns than that, so any frame a
    /// larger or negative index would name lies outside every well-formed
    /// sheet and would only be skipped; the bound makes that rejection
    /// static instead of silent.
    pub fn range(&self, start: i32, end: i32) -> (out: Vec<Sprite>)
        requires
            self.wf(),
            0 <= start <= end,
            end <= SHEET_BOUND as i32,
        ensures
            out@ == self.spec_range(start as int, end as int),
    {
        let mut out: Vec<Sprite> = Vec::new();
        let mut idx = start;
        while idx < end
            invariant
                self.wf(),
                0 <= start <= idx <= end,
                end <= SHEET_BOUND as i32,
                out@ == self.spec_range(start as int, idx as int),
            decreases end - idx,
        {
            let x = idx % self.data.sprites_in_row;
            let y = idx / self.data.sprites_in_row;
            proof {
                assert(0 <= x as int && (x as int) < self.data.sprites_in_row as int);
                assert(0 <= y as int <= idx as int) by (nonlinear_arith)
                    requires
                        0 <= idx as int,
                        1 <= self.data.sprites_in_row as int,
                        y as int == idx as int / (self.data.sprites_in_row as int),
                ;
                assert(0 <= self.data.width as int * (x as int) <= SHEET_BOUND as int
                    * SHEET_BOUND as int) by (nonlinear_arith)
                    requires
                        0 <= x as int <= SHEET_BOUND as int,
                        0 < self.data.width as int <= SHEET_BOUND as int,
                ;
                assert(0 <= self.data.height as int * (y as int) <= SHEET_BOUND as int
                    * SHEET_BOUND as int) by (nonlinear_arith)
                    requires
                        0 <= y as int <= SHEET_BOUND as int,
                        0 < self.data.height as int <= SHEET_BOUND as int,
                ;
            }
            let fr = SpriteRectangle {
                x: self.data.width as i32 * x,
                y: self.data.height as i32 * y,
                w: self.data.width,
                h: self.data.height,
            };
            proof {
                assert(fr == spec_frame_rect(self.data_of(), idx as int));
            }
            match self.spritesheet.region(&fr) {
                Option::Some(s) => {
                    out.push(s);
                }
                Option::None => {}
            }
            proof {
                assert(self.spec_range(start as int, idx + 1) =~= self.spec_range(
                    start as int,
                    idx as int,
                ) + (match self.spec_frame(idx as int) {
                    Option::Some(s) => seq![s],
                    Option::None => Seq::<Sprite>::empty(),
                })) by {
                    lemma_range_snoc(*self, start as int, idx + 1);
                }
            }
            idx = idx + 1;
        }
        out
    }
}

/// Splitting a frame range before its last element: the frames of
/// `start .. end` are the frames of `start .. end - 1` followed by frame
/// `end - 1`.
proof fn lemma_range_snoc(a: Animation, start: int, end: int)
    requires
        start < end,
    ensures
        a.spec_range(start, end) == a.spec_range(start, end - 1) + (match a.spec_frame(end - 1) {
            Option::Some(s) => seq![s],
            Option::None => Seq::<Sprite>::empty(),
        }),
    decreases end - start,
{
    if start == end - 1 {
        assert(a.spec_range(start, end - 1) =~= Seq::<Sprite>::empty());
        assert(a.spec_range(start, end) =~= a.spec_range(start, end - 1) + (match a.spec_frame(
            end - 1,
        ) {
            Option::Some(s) => seq![s],
            Option::None => Seq::<Sprite>::empty(),
        }));
    } else {
        lemma_range_snoc(a, start + 1, end);
        let head = match a.spec_frame(start) {
            Option::Some(s) => seq![s],
            Option::None => Seq::<Sprite>::empty(),
        };
        let tail = match a.spec_frame(end - 1) {
            Option::Some(s) => seq![s],
            Option::None => Seq::<Sprite>::empty(),
        };
        assert(a.spec_range(start, end) == head + a.spec_range(start + 1, end));
        assert(a.spec_range(start + 1, end) == a.spec_range(start + 1, end - 1) + tail);
        assert(a.spec_range(start, end - 1) == head + a.spec_range(start + 1, end - 1));
        assert(head + (a.spec_range(start + 1, end - 1) + tail) =~= (head + a.spec_range(
            start + 1,
            end - 1,
        )) + tail);
    }
}

/// An animated sprite: frames and a time cursor over them.
#[derive(Clone, Debug)]
pub struct AnimatedSprite {
    frames: Vec<Sprite>,
    frame_delay_ms: u32,
    current_time_ms: u64,
}

/// `elapsed` added to `cur` without wrapping: the sum saturates at the
/// largest `u64`.
pub open spec fn spec_add_time(cur: u64, elapsed: u32) -> u64 {
    if cur as int + elapsed as int > u64::MAX as int {
        u64::MAX
    } else {
        (cur + elapsed) as u64
    }
}

impl AnimatedSprite {
    /// The frames.
    pub closed spec fn frames_of(self) -> Seq<Sprite> {
        self.frames@
    }

    /// Milliseconds between frame advances.
    pub closed spec fn delay_of(self) -> u32 {
        self.frame_delay_ms
    }

    /// Total milliseconds the sprite has been alive.
    pub closed spec fn time_of(self) -> u64 {
        self.current_time_ms
    }

    /// At least one frame, and a positive frame delay.
    pub open spec fn wf(self) -> bool {
        &&& self.frames_of().len() >= 1
        &&& self.delay_of() >= 1
    }

    /// An animation running at `fps` frames per second; nothing when
    /// `fps` is zero or above 1000 (the delay would round to nothing) or
    /// there are no frames — degenerate definitions abort construction.
    pub fn with_fps(frames: Vec<Sprite>, fps: u32) -> (r: Option<AnimatedSprite>)
        ensures
            r is Some <==> (1 <= fps <= 1000 && frames@.len() >= 1),
            r is Some ==> {
                &&& r.unwrap().wf()
                &&& r.unwrap().frames_of() == frames@
                &&& r.unwrap().delay_of() == 1000u32 / fps
                &&& r.unwrap().time_of() == 0u64
            },
    {
        if 1 <= fps && fps <= 1000 && frames.len() >= 1 {
            let delay = 1000 / fps;
            proof {
                vstd::arithmetic::div_mod::lemma_div_non_zero(1000int, fps as int);
            }
            Option::Some(AnimatedSprite { frames, frame_delay_ms: delay, current_time_ms: 0 })
        } else {
            Option::None
        }
    }

    /// Advances the time cursor by `elapsed` milliseconds, saturating.
    pub fn add_time(&mut self, elapsed: u32)
        ensures
            final(self).frames_of() == old(self).frames_of(),
            final(self).delay_of() == old(self).delay_of(),
            final(self).time_of() == spec_add_time(old(self).time_of(), elapsed),
    {
        if self.current_time_ms > u64::MAX - elapsed as u64 {
            self.current_time_ms = u64::MAX;
        } else {
            self.current_time_ms = self.current_time_ms + elapsed as u64;
        }
    }

    /// The index of the frame shown now: elapsed frame intervals, wrapped
    /// over the frame count.
    pub fn current_frame(&self) -> (idx: usize)
        requires
            self.wf(),
        ensures
            idx as int == (self.time_of() as int / self.delay_of() as int) % (
            self.frames_of().len() as int),
    {
        ((self.current_time_ms / self.frame_delay_ms as u64) % self.frames.len() as u64) as usize
    }

    /// The number of frames.
    pub fn frame_count(&self) -> (n: usize)
        ensures
            n == self.frames_of().len(),
    {
        self.frames.len()
    }

    /// The frame at `idx`.
    pub fn frame_at(&self, idx: usize) -> (s: Sprite)
        requires
            idx < self.frames_of().len(),
        ensures
            s == self.frames_of()[idx as int],
    {
        self.frames[idx]
    }
}

/// Per-state animation/bounding-box cache.  A backing map holds one
/// `(animation, bounding box)` pair per discrete state; the pair of the
/// currently active state is pulled out into a hot slot so repeated access
/// to the same state across consecutive frames costs no map lookups.  At
/// most one state's pair is ever outside the map, and switching the active
/// state always reinserts the previous hot pair first: the map plus the
/// hot slot form a complete, non-duplicated partition of the registered
/// states.
pub struct AnimationManager {
    fps: u32,
    animations: HashMap<u32, (AnimatedSprite, BoundingBox)>,
    curr_state: Option<u32>,
    curr_bbox: Option<BoundingBox>,
    curr_anim: Option<AnimatedSprite>,
}

impl AnimationManager {
    /// Frame rate every registered animation runs at.
    pub closed spec fn fps_of(self) -> u32 {
        self.fps
    }

    /// The state whose pair sits in the hot slot, if any.
    pub closed spec fn hot_state(self) -> Option<u32> {
        self.curr_state
    }

    /// Whether the hot slot actually holds a pair (the hot state may be
    /// one that was never registered).
    pub closed spec fn hot_loaded(self) -> bool {
        self.curr_anim is Some
    }

    /// All registered states with their pairs: the backing map plus the
    /// hot slot.
    pub closed spec fn states(self) -> Map<u32, (AnimatedSprite, BoundingBox)> {
        match self.curr_state {
            Option::Some(s) => if self.curr_anim is Some && self.curr_bbox is Some {
                self.animations@.insert(s, (self.curr_anim.unwrap(), self.curr_bbox.unwrap()))
            } else {
                self.animations@
            },
            Option::None => self.animations@,
        }
    }

    /// The hot state's pair is outside the map (never duplicated), the
    /// slot is all-or-nothing, and the frame rate is usable.
    pub closed spec fn wf(self) -> bool {
        &&& 1 <= self.fps <= 1000
        &&& match self.curr_state {
            Option::None => self.curr_anim is None && self.curr_bbox is None,
            Option::Some(s) => !self.animations@.contains_key(s) && (self.curr_anim is Some
                <==> self.curr_bbox is Some),
        }
    }

    /// An empty cache whose animations will run at `fps`; nothing when
    /// the rate is zero or above 1000 — a degenerate rate aborts
    /// construction.
    pub fn new(fps: u32) -> (m: Option<AnimationManager>)
        ensures
            m is Some <==> 1 <= fps <= 1000,
            m is Some ==> {
                &&& m.unwrap().wf()
                &&& m.unwrap().fps_of() == fps
                &&& m.unwrap().states() == Map::<u32, (AnimatedSprite, BoundingBox)>::empty()
                &&& m.unwrap().hot_state() is None
            },
    {
        if 1 <= fps && fps <= 1000 {
            Option::Some(
                AnimationManager {
                    fps,
                    animations: HashMap::new(),
                    curr_state: Option::None,
                    curr_bbox: Option::None,
                    curr_anim: Option::None,
                },
            )
        } else {
            Option::None
        }
    }

    /// Registers state `s` with an animation over `anims` and the given
    /// bounding box, replacing any earlier pair for `s`.  Fails (returning
    /// false, changing nothing) exactly when there are no frames.
    pub fn add(&mut self, s: u32, anims: Vec<Sprite>, bound: BoundingBox) -> (ok: bool)
        requires
            old(self).wf(),
        ensures
            final(self).wf(),
            final(self).fps_of() == old(self).fps_of(),
            final(self).hot_state() == old(self).hot_state(),
            !ok ==> *final(self) == *old(self),
            ok <==> anims@.len() >= 1,
            ok ==> {
                &&& final(self).states().contains_key(s)
                &&& final(self).states()[s].0.frames_of() == anims@
                &&& final(self).states()[s].0.delay_of() == 1000u32 / old(self).fps_of()
                &&& final(self).states()[s].0.time_of() == 0u64
                &&& final(self).states()[s].1 == bound
                &&& final(self).states() == old(self).states().insert(s, final(self).states()[s])
            },
    {
        broadcast use vstd::std_specs::hash::group_hash_axioms;

        if anims.len() == 0 {
            return false;
        }
        let sprite = match AnimatedSprite::with_fps(anims, self.fps) {
            Option::Some(a) => a,
            Option::None => {
                proof {
                    assert(false);
                }
                return false;
            }
        };
        let hot = match self.curr_state {
            Option::Some(st) => st == s,
            Option::None => false,
        };
        if hot {
            self.curr_anim = Option::Some(sprite);
            self.curr_bbox = Option::Some(bound);
            proof {
                assert(final(self).states() =~= old(self).states().insert(
                    s,
                    final(self).states()[s],
                ));
            }
        } else {
            self.animations.insert(s, (sprite, bound));
            proof {
                assert(final(self).states() =~= old(self).states().insert(
                    s,
                    final(self).states()[s],
                ));
            }
        }
        true
    }

    /// Makes `s` the active state: reinserts the previous hot pair into
    /// the map, then pulls `s`'s pair out of the map into the hot slot
    /// (the slot stays empty when `s` was never registered).  The set of
    /// registered states and their pairs is unchanged, and switching to
    /// the already-active state does nothing at all.
    pub fn set_active(&mut self, s: u32)
        requires
            old(self).wf(),
        ensures
            final(self).wf(),
            final(self).fps_of() == old(self).fps_of(),
            final(self).states() == old(self).states(),
            final(self).hot_state() == Option::Some(s),
            old(self).hot_state() == Option::Some(s) ==> *final(self) == *old(self),
            final(self).hot_loaded() <==> final(self).states().contains_key(s),
    {
        broadcast use vstd::std_specs::hash::group_hash_axioms;

        let already = match self.curr_state {
            Option::Some(st) => st == s,
            Option::None => false,
        };
        if already {
            return;
        }
        let ghost st0 = *self;
        match self.curr_state {
            Option::Some(st) => {
                let a = self.curr_anim.take();
                let b = self.curr_bbox.take();
                match (a, b) {
                    (Option::Some(an), Option::Some(bb)) => {
                        self.animations.insert(st, (an, bb));
                    }
                    _ => {}
                }
            }
            Option::None => {}
        }
        proof {
            assert(self.animations@ =~= st0.states());
        }
        self.curr_state = Option::Some(s);
        match self.animations.remove(&s) {
            Option::Some(pair) => {
                self.curr_anim = Option::Some(pair.0);
                self.curr_bbox = Option::Some(pair.1);
            }
            Option::None => {
                self.curr_anim = Option::None;
                self.curr_bbox = Option::None;
            }
        }
        proof {
            assert(final(self).states() =~= st0.states());
        }
    }

    /// The bounding box of state `s`, without touching the hot slot.
    pub fn peek_bbox(&self, s: u32) -> (r: Option<&BoundingBox>)
        requires
            self.wf(),
        ensures
            r is Some <==> self.states().contains_key(s),
            r is Some ==> *r.unwrap() == self.states()[s].1,
    {
        broadcast use vstd::std_specs::hash::group_hash_axioms;

        let hot = match self.curr_state {
            Option::Some(st) => st == s,
            Option::None => false,
        };
        if hot {
            self.curr_bbox.as_ref()
        } else {
            match self.animations.get(&s) {
                Option::Some(pair) => Option::Some(&pair.1),
                Option::None => Option::None,
            }
        }
    }

    /// The animation of state `s`, making `s` hot first.
    pub fn anim(&mut self, s: u32) -> (r: Option<&AnimatedSprite>)
        requires
            old(self).wf(),
        ensures
            final(self).wf(),
            final(self).fps_of() == old(self).fps_of(),
            final(self).states() == old(self).states(),
            final(self).hot_state() == Option::Some(s),
            r is Some <==> old(self).states().contains_key(s),
            r is Some ==> *r.unwrap() == old(self).states()[s].0,
    {
        self.set_active(s);
        self.curr_anim.as_ref()
    }

    /// The bounding box of state `s`, making `s` hot first.
    pub fn bbox(&mut self, s: u32) -> (r: Option<&BoundingBox>)
        requires
            old(self).wf(),
        ensures
            final(self).wf(),
            final(self).fps_of() == old(self).fps_of(),
            final(self).states() == old(self).states(),
            final(self).hot_state() == Option::Some(s),
            r is Some <==> old(self).states().contains_key(s),
            r is Some ==> *r.unwrap() == old(self).states()[s].1,
    {
        self.set_active(s);
        self.curr_bbox.as_ref()
    }

    /// Classifies the collision of state `s`'s bounding box (moving) with
    /// `other_bbox`: nothing when `s` is unregistered or there is no
    /// other box.
    pub fn collides_with(&mut self, s: u32, other_bbox: &Option<BoundingBox>) -> (r: Option<
        CollisionSide,
    >)
        requires
            old(self).wf(),
        ensures
            final(self).wf(),
            final(self).fps_of() == old(self).fps_of(),
            final(self).states() == old(self).states(),
            final(self).hot_state() == Option::Some(s),
            r == if old(self).states().contains_key(s) && other_bbox is Some {
                spec_classify(
                    old(self).states()[s].1.spec_rect(),
                    other_bbox.unwrap().spec_rect(),
                )
            } else {
                Option::<CollisionSide>::None
            },
    {
        match self.bbox(s) {
            Option::Some(bounding_box) => match other_bbox {
                Option::Some(bbox) => bounding_box.collides_with(bbox),
                Option::None => Option::None,
            },
            Option::None => Option::None,
        }
    }

    /// Advances state `s`'s animation by `elapsed` milliseconds; nothing
    /// happens when `s` is unregistered.
    pub fn add_time(&mut self, s: u32, elapsed: u32)
        requires
            old(self).wf(),
        ensures
            final(self).wf(),
            final(self).fps_of() == old(self).fps_of(),
            final(self).hot_state() == Option::Some(s),
            !old(self).states().contains_key(s) ==> final(self).states() == old(self).states(),
            old(self).states().contains_key(s) ==> {
                &&& final(self).states().contains_key(s)
                &&& final(self).states()[s].0.frames_of() == old(self).states()[s].0.frames_of()
                &&& final(self).states()[s].0.delay_of() == old(self).states()[s].0.delay_of()
                &&& final(self).states()[s].0.time_of() == spec_add_time(
                    old(self).states()[s].0.time_of(),
                    elapsed,
                )
                &&& final(self).states()[s].1 == old(self).states()[s].1
                &&& final(self).states() == old(self).states().insert(s, final(self).states()[s])
            },
    {
        self.set_active(s);
        let ghost mid = *self;
        match &mut self.curr_anim {
            Option::Some(animation) => {
                animation.add_time(elapsed);
                proof {
                    assert(final(self).states() =~= mid.states().insert(
                        s,
                        final(self).states()[s],
                    ));
                }
            }
            Option::None => {}
        }
    }

    /// Moves state `s`'s bounding box to the position of `rect`, keeping
    /// its extents; nothing happens when `s` is unregistered.
    pub fn change_pos(&mut self, s: u32, rect: &SpriteRectangle)
        requires
            old(self).wf(),
        ensures
            final(self).wf(),
            final(self).fps_of() == old(self).fps_of(),
            final(self).hot_state() == Option::Some(s),
            !old(self).states().contains_key(s) ==> final(self).states() == old(self).states(),
            old(self).states().contains_key(s) ==> {
                &&& final(self).states().contains_key(s)
                &&& final(self).states()[s].0 == old(self).states()[s].0
                &&& final(self).states()[s].1.spec_rect() == (SpriteRectangle {
                    x: rect.x,
                    y: rect.y,
                    ..old(self).states()[s].1.spec_rect()
                })
                &&& final(self).states() == old(self).states().insert(s, final(self).states()[s])
            },
    {
        self.set_active(s);
        let ghost mid = *self;
        match &mut self.curr_bbox {
            Option::Some(bounding_box) => {
                bounding_box.change_pos(rect);
                proof {
                    assert(final(self).states() =~= mid.states().insert(
                        s,
                        final(self).states()[s],
                    ));
                }
            }
            Option::None => {}
        }
    }
}

} // verus!
