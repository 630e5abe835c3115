//! Entity snapshots and the discrete tags the simulation sorts entities by.
//!
//! `ActorData` is a read-only projection of a live entity taken at a point
//! in time; mutating a snapshot never mutates the entity it was taken from.
//! Snapshots are what the quadtree indexes and what collision candidates
//! are compared against.

use vstd::prelude::*;
use crate::collision::BoundingBox;
use crate::collision::SIDE_ALL;
use crate::collision::SIDE_BOTTOM;
use crate::geometry::SpriteRectangle;
use crate::geometry::WORLD_BOUND;
use crate::geometry::rect_wf;
use crate::message::ActorAction;
use crate::message::ActorMessage;
use crate::score::SCORE_GAME;
use crate::sprite::AnimationManager;
use crate::sprite::Sprite;

verus! {

/// The kind of an entity, used to route collision behaviour.
#[derive(Clone, Copy, PartialEq, Eq, Structural, Debug)]
pub enum ActorType {
    Player,
    Block,
    Item,
    Enemy,
}

/// A point-in-time snapshot of one entity, as handed to the quadtree and to
/// collision handlers.
#[derive(Clone, Copy, Debug)]
pub struct ActorData {
    /// Stable identity of the entity the snapshot was taken from.
    pub id: i32,
    /// Discrete state tag of the entity (for instance standing or jumping).
    pub state: u32,
    /// Damage the entity deals on contact.
    pub damage: i32,
    /// Whether the simulation step resolves collisions for this entity.
    pub checks_collision: bool,
    /// The entity's on-screen rectangle.
    pub rect: SpriteRectangle,
    /// The collision shape, when the entity takes part in collisions.
    pub bounding_box: Option<BoundingBox>,
    /// The kind of the entity.
    pub actor_type: ActorType,
    /// Bitmask of the collision sides the entity registers (`SIDE_*` bits).
    pub collision_filter: u8,
}

/// Discrete state tag: standing on the ground.
pub const STATE_IDLE: u32 = 0;

/// Discrete state tag: airborne.
pub const STATE_JUMPING: u32 = 1;

/// Largest horizontal speed the player reaches, in units per step.
pub const PLAYER_MAX_SPEED: i32 = 10;

/// How much the player's horizontal speed moves toward its target each
/// step.
pub const PLAYER_ACCELERATION: i32 = 2;

/// How much an airborne entity's fall speed grows each step.
pub const PLAYER_GRAVITY: i32 = 2;

/// Largest fall speed, in units per step.
pub const PLAYER_MAX_FALL_SPEED: i32 = 15;

/// Upward speed at the moment of a jump.
pub const PLAYER_JUMP_SPEED: i32 = 20;

/// Score granted when the player collects an item.
pub const COIN_VALUE: i32 = 5;

/// Bound on every entity's speed on either axis.
pub const SPEED_LIMIT: i32 = 1000;

/// The input flags one frame sees; the surrounding program polls the
/// real events and hands the flags in as plain values.
#[derive(Clone, Copy, PartialEq, Eq, Structural, Debug)]
pub struct InputState {
    /// Move left is held.
    pub left: bool,
    /// Move right is held.
    pub right: bool,
    /// Jump was pressed.
    pub space: bool,
    /// Switch views was pressed.
    pub enter: bool,
    /// Escape was pressed.
    pub escape: bool,
    /// The window was asked to close.
    pub quit: bool,
}

impl InputState {
    /// No key held.
    pub fn none() -> (r: InputState)
        ensures
            r == (InputState {
                left: false,
                right: false,
                space: false,
                enter: false,
                escape: false,
                quit: false,
            }),
    {
        InputState { left: false, right: false, space: false, enter: false, escape: false, quit: false }
    }
}

/// `v` moved toward `target` by at most `step`.
pub open spec fn spec_approach(v: int, target: int, step: int) -> int {
    if v < target {
        if v + step < target {
            v + step
        } else {
            target
        }
    } else if v > target {
        if v - step > target {
            v - step
        } else {
            target
        }
    } else {
        v
    }
}

/// `x` clamped so that a span of extent `w` starting there stays inside
/// the world square.
pub open spec fn spec_clamp_coord(x: int, w: int) -> int {
    if x > WORLD_BOUND as int - w {
        WORLD_BOUND as int - w
    } else if x < -(WORLD_BOUND as int) {
        -(WORLD_BOUND as int)
    } else {
        x
    }
}

/// `r` moved by `(dx, dy)` and constrained to the world square; extents
/// never change.
pub open spec fn spec_constrain_move(r: SpriteRectangle, dx: int, dy: int) -> SpriteRectangle {
    SpriteRectangle {
        x: spec_clamp_coord(r.x as int + dx, r.w as int) as i32,
        y: spec_clamp_coord(r.y as int + dy, r.h as int) as i32,
        w: r.w,
        h: r.h,
    }
}

/// Moves `v` toward `target` by at most `step`.
pub fn approach(v: i32, target: i32, step: i32) -> (r: i32)
    requires
        -SPEED_LIMIT <= v <= SPEED_LIMIT,
        -SPEED_LIMIT <= target <= SPEED_LIMIT,
        0 < step <= SPEED_LIMIT,
    ensures
        r as int == spec_approach(v as int, target as int, step as int),
        -SPEED_LIMIT <= r <= SPEED_LIMIT,
{
    if v < target {
        if v + step < target {
            v + step
        } else {
            target
        }
    } else if v > target {
        if v - step > target {
            v - step
        } else {
            target
        }
    } else {
        v
    }
}

/// Moves `r` by `(dx, dy)`, constrained to the world square.
pub fn constrain_move(r: &SpriteRectangle, dx: i32, dy: i32) -> (out: SpriteRectangle)
    requires
        rect_wf(*r),
    ensures
        out == spec_constrain_move(*r, dx as int, dy as int),
        rect_wf(out),
{
    let nx: i64 = r.x as i64 + dx as i64;
    let ny: i64 = r.y as i64 + dy as i64;
    let hi_x: i64 = WORLD_BOUND as i64 - r.w as i64;
    let hi_y: i64 = WORLD_BOUND as i64 - r.h as i64;
    let cx: i64 = if nx > hi_x {
        hi_x
    } else if nx < -(WORLD_BOUND as i64) {
        -(WORLD_BOUND as i64)
    } else {
        nx
    };
    let cy: i64 = if ny > hi_y {
        hi_y
    } else if ny < -(WORLD_BOUND as i64) {
        -(WORLD_BOUND as i64)
    } else {
        ny
    };
    SpriteRectangle { x: cx as i32, y: cy as i32, w: r.w, h: r.h }
}

/// A live entity.  Behaviour is data-driven: the `actor_type` tag decides
/// how `update` and `handle_message` act, so new kinds are configuration,
/// not new code paths outside this module.
pub struct Actor {
    /// Stable identity; unique within one store.
    pub id: i32,
    /// The kind that routes behaviour.
    pub actor_type: ActorType,
    /// Discrete state tag (`STATE_IDLE`, `STATE_JUMPING`).
    pub state: u32,
    /// Damage dealt on contact.
    pub damage: i32,
    /// Whether the simulation step resolves collisions for this entity.
    pub checks_collision: bool,
    /// Bitmask of the collision sides this entity registers.
    pub collision_filter: u8,
    /// The on-screen rectangle.
    pub rect: SpriteRectangle,
    /// Horizontal speed in units per step.
    pub vx: i32,
    /// Vertical speed in units per step (positive is down).
    pub vy: i32,
    /// Score granted when this entity is collected.
    pub value: i32,
    /// The per-state animation/bounding-box cache.
    pub animations: AnimationManager,
}

/// Exactly how one `update` step relates an entity's new value to its
/// old one, given the frame's input: identity and configuration are
/// untouched, the player steers toward the held direction, jumps from
/// the ground and falls under gravity, an enemy drifts at its own speed,
/// items and blocks stay put, and the animation cache keeps its
/// registered states.
pub open spec fn spec_updated(pre: Actor, post: Actor, input: InputState) -> bool {
    &&& actor_wf(post)
    &&& post.id == pre.id
    &&& post.actor_type == pre.actor_type
    &&& post.damage == pre.damage
    &&& post.checks_collision == pre.checks_collision
    &&& post.collision_filter == pre.collision_filter
    &&& post.value == pre.value
    &&& post.rect.w == pre.rect.w && post.rect.h == pre.rect.h
    &&& post.animations.states().dom() == pre.animations.states().dom()
    &&& pre.actor_type == ActorType::Player ==> ({
        let target: int = if input.right {
            PLAYER_MAX_SPEED as int
        } else if input.left {
            -(PLAYER_MAX_SPEED as int)
        } else {
            0int
        };
        let jumped = input.space && pre.state == STATE_IDLE;
        let state1: u32 = if jumped {
            STATE_JUMPING
        } else {
            pre.state
        };
        let vy0: int = if jumped {
            -(PLAYER_JUMP_SPEED as int)
        } else {
            pre.vy as int
        };
        &&& post.state == state1
        &&& post.vx as int == spec_approach(pre.vx as int, target, PLAYER_ACCELERATION as int)
        &&& post.vy as int == (if state1 == STATE_JUMPING {
            spec_approach(vy0, PLAYER_MAX_FALL_SPEED as int, PLAYER_GRAVITY as int)
        } else {
            0int
        })
        &&& post.rect == spec_constrain_move(pre.rect, post.vx as int, post.vy as int)
    })
    &&& pre.actor_type == ActorType::Enemy ==> post.state == pre.state && post.vx == pre.vx
        && post.vy == pre.vy && post.rect == spec_constrain_move(
        pre.rect,
        pre.vx as int,
        pre.vy as int,
    )
    &&& (pre.actor_type == ActorType::Item || pre.actor_type == ActorType::Block) ==> post.state
        == pre.state && post.vx == pre.vx && post.vy == pre.vy && post.rect == pre.rect
}

/// A live entity is well formed when its rectangle is inside the world,
/// its speeds are bounded and its animation cache is well formed.
pub open spec fn actor_wf(a: Actor) -> bool {
    &&& rect_wf(a.rect)
    &&& -SPEED_LIMIT <= a.vx <= SPEED_LIMIT
    &&& -SPEED_LIMIT <= a.vy <= SPEED_LIMIT
    &&& a.animations.wf()
}

impl Actor {
    /// Builds an entity of the given kind at `position`, with animations
    /// running at `fps`.  Nothing when the rate is degenerate or the
    /// entity would not fit inside the world — a bad configuration aborts
    /// construction.
    pub fn new(kind: ActorType, id: i32, position: (i32, i32), fps: u32) -> (r: Option<Actor>)
        ensures
            r is Some <==> (1 <= fps <= 1000 && rect_wf(
                (SpriteRectangle {
                    x: position.0,
                    y: position.1,
                    w: spec_kind_extent(kind),
                    h: spec_kind_extent(kind),
                }),
            )),
            r is Some ==> {
                let a = r.unwrap();
                &&& actor_wf(a)
                &&& a.id == id
                &&& a.actor_type == kind
                &&& a.rect == (SpriteRectangle {
                    x: position.0,
                    y: position.1,
                    w: spec_kind_extent(kind),
                    h: spec_kind_extent(kind),
                })
                &&& a.state == (if kind == ActorType::Player {
                    STATE_JUMPING
                } else {
                    STATE_IDLE
                })
                &&& a.vx == 0 && a.vy == 0
                &&& a.checks_collision == (kind != ActorType::Block)
                &&& a.collision_filter == SIDE_ALL
                &&& a.damage == (if kind == ActorType::Enemy {
                    10i32
                } else {
                    0i32
                })
                &&& a.value == (if kind == ActorType::Item {
                    COIN_VALUE
                } else {
                    0i32
                })
                &&& a.animations.states().contains_key(a.state)
                &&& a.animations.states()[a.state].1 == BoundingBox::Rectangle(a.rect)
            },
    {
        let extent = kind_extent(kind);
        let rect = SpriteRectangle { x: position.0, y: position.1, w: extent, h: extent };
        let fits = -(WORLD_BOUND) <= position.0 && position.0 <= WORLD_BOUND - extent as i32
            && -(WORLD_BOUND) <= position.1 && position.1 <= WORLD_BOUND - extent as i32;
        if !fits {
            return Option::None;
        }
        let mut animations = match AnimationManager::new(fps) {
            Option::Some(m) => m,
            Option::None => {
                return Option::None;
            }
        };
        let sheet = match Sprite::new(extent, extent) {
            Option::Some(sp) => sp,
            Option::None => {
                proof {
                    assert(false);
                }
                return Option::None;
            }
        };
        let frame: Vec<Sprite> = vec![sheet];
        let bound = BoundingBox::Rectangle(rect);
        let state: u32 = if matches!(kind, ActorType::Player) {
            STATE_JUMPING
        } else {
            STATE_IDLE
        };
        animations.add(state, frame, bound);
        Option::Some(
            Actor {
                id,
                actor_type: kind,
                state,
                damage: if matches!(kind, ActorType::Enemy) {
                    10
                } else {
                    0
                },
                checks_collision: !matches!(kind, ActorType::Block),
                collision_filter: SIDE_ALL,
                rect,
                vx: 0,
                vy: 0,
                value: if matches!(kind, ActorType::Item) {
                    COIN_VALUE
                } else {
                    0
                },
                animations,
            },
        )
    }

    /// The snapshot `data` returns: every descriptive field copied, the
    /// bounding box rebuilt from the current rectangle.
    pub open spec fn spec_data(self) -> ActorData {
        ActorData {
            id: self.id,
            state: self.state,
            damage: self.damage,
            checks_collision: self.checks_collision,
            rect: self.rect,
            bounding_box: Option::Some(BoundingBox::Rectangle(self.rect)),
            actor_type: self.actor_type,
            collision_filter: self.collision_filter,
        }
    }

    /// A read-only snapshot of this entity.
    pub fn data(&self) -> (d: ActorData)
        requires
            actor_wf(*self),
        ensures
            d == self.spec_data(),
    {
        let bounding_box = Option::Some(BoundingBox::Rectangle(self.rect));
        ActorData {
            id: self.id,
            state: self.state,
            damage: self.damage,
            checks_collision: self.checks_collision,
            rect: self.rect,
            bounding_box,
            actor_type: self.actor_type,
            collision_filter: self.collision_filter,
        }
    }

    /// Advances the entity by one step: the player steers toward the
    /// held keys, jumps from the ground and falls under gravity; an enemy
    /// drifts at its own speed; items and blocks stay put.  Every kind
    /// advances its animation clock.  Positions are constrained to the
    /// world square.
    pub fn update(&mut self, input: &InputState, elapsed: u32) -> (msg: ActorMessage)
        requires
            actor_wf(*old(self)),
        ensures
            actor_wf(*final(self)),
            spec_updated(*old(self), *final(self), *input),
            msg is NoOp,
            final(self).id == old(self).id,
            final(self).actor_type == old(self).actor_type,
            final(self).damage == old(self).damage,
            final(self).checks_collision == old(self).checks_collision,
            final(self).collision_filter == old(self).collision_filter,
            final(self).value == old(self).value,
            final(self).rect.w == old(self).rect.w && final(self).rect.h == old(self).rect.h,
            final(self).animations.states().dom() == old(self).animations.states().dom(),
            old(self).actor_type == ActorType::Player ==> ({
                let target: int = if input.right {
                    PLAYER_MAX_SPEED as int
                } else if input.left {
                    -(PLAYER_MAX_SPEED as int)
                } else {
                    0int
                };
                let jumped = input.space && old(self).state == STATE_IDLE;
                let state1: u32 = if jumped {
                    STATE_JUMPING
                } else {
                    old(self).state
                };
                let vy0: int = if jumped {
                    -(PLAYER_JUMP_SPEED as int)
                } else {
                    old(self).vy as int
                };
                &&& final(self).state == state1
                &&& final(self).vx as int == spec_approach(
                    old(self).vx as int,
                    target,
                    PLAYER_ACCELERATION as int,
                )
                &&& final(self).vy as int == (if state1 == STATE_JUMPING {
                    spec_approach(vy0, PLAYER_MAX_FALL_SPEED as int, PLAYER_GRAVITY as int)
                } else {
                    0int
                })
                &&& final(self).rect == spec_constrain_move(
                    old(self).rect,
                    final(self).vx as int,
                    final(self).vy as int,
                )
            }),
            old(self).actor_type == ActorType::Enemy ==> final(self).state == old(self).state
                && final(self).vx == old(self).vx && final(self).vy == old(self).vy
                && final(self).rect == spec_constrain_move(
                old(self).rect,
                old(self).vx as int,
                old(self).vy as int,
            ),
            (old(self).actor_type == ActorType::Item || old(self).actor_type == ActorType::Block)
                ==> final(self).state == old(self).state && final(self).vx == old(self).vx
                && final(self).vy == old(self).vy && final(self).rect == old(self).rect,
    {
        match self.actor_type {
            ActorType::Player => {
                let target: i32 = if input.right {
                    PLAYER_MAX_SPEED
                } else if input.left {
                    -PLAYER_MAX_SPEED
                } else {
                    0
                };
                self.vx = approach(self.vx, target, PLAYER_ACCELERATION);
                if input.space && self.state == STATE_IDLE {
                    self.vy = -PLAYER_JUMP_SPEED;
                    self.state = STATE_JUMPING;
                }
                if self.state == STATE_JUMPING {
                    self.vy = approach(self.vy, PLAYER_MAX_FALL_SPEED, PLAYER_GRAVITY);
                } else {
                    self.vy = 0;
                }
                self.rect = constrain_move(&self.rect, self.vx, self.vy);
            }
            ActorType::Enemy => {
                self.rect = constrain_move(&self.rect, self.vx, self.vy);
            }
            ActorType::Item => {}
            ActorType::Block => {}
        }
        let ghost mid = *self;
        self.animations.add_time(self.state, elapsed);
        proof {
            assert(self.animations.states().dom() =~= mid.animations.states().dom());
        }
        let ghost mid2 = *self;
        let rect = self.rect;
        self.animations.change_pos(self.state, &rect);
        proof {
            assert(self.animations.states().dom() =~= mid2.animations.states().dom());
        }
        ActorMessage::NoOp
    }

    /// Reacts to a message, returning the follow-up requests to dispatch.
    /// A collision on the player's bottom side grounds it; a collision of
    /// an item with the player yields the item's score and asks for the
    /// item's removal; a position delta moves the entity.  Everything else
    /// is ignored.  Replies only ever concern this entity itself, never
    /// move the viewport, and never report a death.
    pub fn handle_message(&mut self, msg: &ActorMessage) -> (reply: Vec<ActorMessage>)
        requires
            actor_wf(*old(self)),
        ensures
            actor_wf(*final(self)),
            final(self).id == old(self).id,
            final(self).actor_type == old(self).actor_type,
            final(self).animations == old(self).animations,
            final(self).rect.w == old(self).rect.w && final(self).rect.h == old(self).rect.h,
            match msg {
                ActorMessage::ActorAction { action: ActorAction::Collision(other_type, mask), .. } => {
                    if old(self).actor_type == ActorType::Item && *other_type == ActorType::Player {
                        &&& *final(self) == *old(self)
                        &&& reply@ == seq![
                            ActorMessage::UpdateScore(SCORE_GAME, old(self).value),
                            ActorMessage::RemoveActor(old(self).id),
                        ]
                    } else if old(self).actor_type == ActorType::Player && *mask & SIDE_BOTTOM
                        != 0 {
                        &&& *final(self) == (Actor { state: STATE_IDLE, vy: 0, ..*old(self) })
                        &&& reply@ == Seq::<ActorMessage>::empty()
                    } else {
                        &&& *final(self) == *old(self)
                        &&& reply@ == Seq::<ActorMessage>::empty()
                    }
                },
                ActorMessage::ActorAction { action: ActorAction::ChangePosition(dx, dy), .. } => {
                    &&& *final(self) == (Actor {
                        rect: spec_constrain_move(old(self).rect, *dx as int, *dy as int),
                        ..*old(self)
                    })
                    &&& reply@ == Seq::<ActorMessage>::empty()
                },
                _ => *final(self) == *old(self) && reply@ == Seq::<ActorMessage>::empty(),
            },
            forall|k: i32|
                crate::message::spec_messages_touch(reply@, k) ==> k == old(self).id,
            !crate::message::spec_messages_move_viewport(reply@),
            !crate::message::spec_messages_have_death(reply@),
            crate::message::spec_messages_work(reply@) <= 3,
    {
        match msg {
            ActorMessage::ActorAction { action: ActorAction::Collision(other_type, mask), .. } => {
                let is_player_hit = matches!(self.actor_type, ActorType::Item) && matches!(
                    other_type,
                    ActorType::Player,
                );
                if is_player_hit {
                    let replies: Vec<ActorMessage> = vec![
                        ActorMessage::UpdateScore(SCORE_GAME, self.value),
                        ActorMessage::RemoveActor(self.id),
                    ];
                    proof {
                        reveal_with_fuel(crate::message::spec_messages_touch, 4);
                        reveal_with_fuel(crate::message::spec_messages_move_viewport, 4);
                        reveal_with_fuel(crate::message::spec_messages_have_death, 4);
                        reveal_with_fuel(crate::message::spec_messages_work, 4);
                        assert(replies@.drop_first() =~= seq![
                            ActorMessage::RemoveActor(self.id),
                        ]);
                        assert(replies@.drop_first().drop_first() =~= Seq::<
                            ActorMessage,
                        >::empty());
                    }
                    return replies;
                }
                if matches!(self.actor_type, ActorType::Player) && *mask & SIDE_BOTTOM != 0 {
                    self.state = STATE_IDLE;
                    self.vy = 0;
                }
                Vec::new()
            }
            ActorMessage::ActorAction { action: ActorAction::ChangePosition(dx, dy), .. } => {
                self.rect = constrain_move(&self.rect, *dx, *dy);
                Vec::new()
            }
            _ => Vec::new(),
        }
    }

    /// Repositions the entity, constrained to the world square.
    pub fn set_position(&mut self, position: (i32, i32))
        requires
            actor_wf(*old(self)),
        ensures
            actor_wf(*final(self)),
            *final(self) == (Actor {
                rect: (SpriteRectangle {
                    x: spec_clamp_coord(position.0 as int, old(self).rect.w as int) as i32,
                    y: spec_clamp_coord(position.1 as int, old(self).rect.h as int) as i32,
                    ..old(self).rect
                }),
                ..*old(self)
            }),
    {
        let hi_x: i64 = WORLD_BOUND as i64 - self.rect.w as i64;
        let hi_y: i64 = WORLD_BOUND as i64 - self.rect.h as i64;
        let cx: i64 = if position.0 as i64 > hi_x {
            hi_x
        } else if (position.0 as i64) < -(WORLD_BOUND as i64) {
            -(WORLD_BOUND as i64)
        } else {
            position.0 as i64
        };
        let cy: i64 = if position.1 as i64 > hi_y {
            hi_y
        } else if (position.1 as i64) < -(WORLD_BOUND as i64) {
            -(WORLD_BOUND as i64)
        } else {
            position.1 as i64
        };
        self.rect = SpriteRectangle { x: cx as i32, y: cy as i32, w: self.rect.w, h: self.rect.h };
    }
}

/// The square side of each entity kind's rectangle.
pub open spec fn spec_kind_extent(kind: ActorType) -> u32 {
    match kind {
        ActorType::Player => 96u32,
        ActorType::Block => 40u32,
        ActorType::Item => 32u32,
        ActorType::Enemy => 96u32,
    }
}

/// The square side of each entity kind's rectangle.
pub fn kind_extent(kind: ActorType) -> (r: u32)
    ensures
        r == spec_kind_extent(kind),
{
    match kind {
        ActorType::Player => 96,
        ActorType::Block => 40,
        ActorType::Item => 32,
        ActorType::Enemy => 96,
    }
}

} // verus!
