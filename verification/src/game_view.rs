//! The gameplay view: per-frame simulation step and message dispatch.
//!
//! Each step snapshots the live entities, freezes the ones outside the
//! viewport, builds a fresh quadtree over the window region from the
//! surviving snapshots, and then processes every surviving entity in
//! turn: the entity is checked out of the store, updated, its collisions
//! against nearby candidates resolved by discrete un-stick nudges, the
//! masked collision messages delivered, and the entity checked back in.
//! Messages returned by handlers are dispatched through an explicit FIFO
//! queue with an iteration cap, so a forwarding cycle surfaces as a fatal
//! configuration error instead of unbounded recursion.
//!
//! The step's contract pins the pass-level laws: entities outside the
//! viewport are untouched, blocks never move, an entity leaves the store
//! only through its own collision response, the viewport ends centered on
//! the player's post-update position, and an id evicted mid-pass is
//! silently skipped (the store's `temp_remove` returns nothing for it and
//! the pass continues with the remaining ids; with this crate's handlers,
//! which only ever evict the entity they were addressed to, that case is
//! provably never reached).  What a surviving in-viewport entity's own
//! step does is pinned too: the step ensures it was updated by
//! `Actor::update`'s law and then put through `resolve_entity_collisions`'
//! exact collision phase over broad-phase candidates
//! (`spec_entity_stepped`).

use vstd::prelude::*;
use crate::actor::Actor;
use crate::actor::ActorData;
use crate::actor::ActorType;
use crate::actor::InputState;
use crate::actor::actor_wf;
use crate::actor::spec_kind_extent;
use crate::actor::spec_updated;
use crate::actor_manager::ActorManager;
use crate::actor::STATE_IDLE;
use crate::actor::STATE_JUMPING;
use crate::actor::spec_clamp_coord;
use crate::collision::CollisionSide;
use crate::collision::SIDE_BOTTOM;
use crate::collision::depth_bottom;
use crate::collision::depth_left;
use crate::collision::depth_right;
use crate::collision::depth_top;
use crate::collision::resolve_collision;
use crate::collision::side_mask;
use crate::collision::spec_classify;
use crate::collision::spec_side_mask;
use crate::geometry::SpriteRectangle;
use crate::geometry::WORLD_BOUND;
use crate::geometry::rect_wf;
use crate::geometry::spec_overlaps;
use crate::message::ActorAction;
use crate::message::ActorMessage;
use crate::message::lemma_messages_split;
use crate::message::lemma_messages_work_at_least_len;
use crate::message::spec_message_touches;
use crate::message::spec_message_work;
use crate::message::spec_messages_have_death;
use crate::message::spec_messages_move_viewport;
use crate::message::spec_messages_touch;
use crate::message::spec_messages_work;
use crate::quadtree::Quadtree;
use crate::score::SCORE_GAME;
use crate::score::Score;
use crate::score::spec_saturate_add;
use crate::viewport::Viewport;
use crate::viewport::Window;
use crate::viewport::spec_view_rect;
use crate::viewport::viewport_wf;
use crate::viewport::window_wf;

verus! {

/// What the surrounding frame loop does after an update.
#[derive(Clone, Copy, PartialEq, Eq, Structural, Debug)]
pub enum ViewAction {
    /// Leave the game.
    Quit,
    /// Switch to another view.
    ChangeView,
    /// The player died.
    GameOver,
}

/// A fatal dispatch failure: the message queue did not drain within the
/// iteration cap, which means a forwarding cycle.
#[derive(Clone, Copy, PartialEq, Eq, Structural, Debug)]
pub enum DispatchError {
    MessageCycle,
}

/// Dispatch effort spent per dispatch before a forwarding cycle is
/// assumed; any queue whose total `spec_messages_work` stays within this
/// cap provably drains.
pub const MESSAGE_CAP: usize = 10000;

/// Frame rate handed to entity constructors.
pub const GAME_FPS: u32 = 60;

/// Whether the simulation step resolves collisions for an entity: it must
/// ask for collision checks and not be a static block.
pub open spec fn spec_collision_gate(a: Actor) -> bool {
    a.checks_collision && a.actor_type != ActorType::Block
}

/// The rectangle the un-stick loop leaves the moving entity at: pushed
/// back against the penetration axis by exactly the penetration depth of
/// the classified side, so the rectangles end touching.
pub open spec fn spec_resolved_rect(
    r: SpriteRectangle,
    other: SpriteRectangle,
    side: CollisionSide,
) -> SpriteRectangle {
    match side {
        CollisionSide::Right => SpriteRectangle { x: (r.x as int - depth_right(r, other)) as i32, ..r },
        CollisionSide::Left => SpriteRectangle { x: (r.x as int + depth_left(r, other)) as i32, ..r },
        CollisionSide::Bottom => SpriteRectangle {
            y: (r.y as int - depth_bottom(r, other)) as i32,
            ..r
        },
        CollisionSide::Top => SpriteRectangle { y: (r.y as int + depth_top(r, other)) as i32, ..r },
    }
}

/// One candidate against the moving entity: the classifier picks the
/// side of smallest penetration, the un-stick resolution moves the
/// entity to touching — resting one unit back into the ground after a
/// bottom hit — the position is constrained to the world square, and the
/// side, masked by the candidate's collision filter, is delivered to the
/// entity, whose reply messages are collected.  Candidates that classify
/// no side, and the entity's own snapshot, change nothing.  The third
/// component records whether this candidate was a bottom contact.
pub open spec fn spec_collide_step(a: Actor, cand: ActorData) -> (Actor, Seq<ActorMessage>, bool) {
    if cand.id == a.id {
        (a, Seq::empty(), false)
    } else {
        match spec_classify(a.rect, cand.rect) {
            Option::None => (a, Seq::empty(), false),
            Option::Some(side) => {
                let r1 = spec_resolved_rect(a.rect, cand.rect, side);
                let r2 = if side == CollisionSide::Bottom {
                    SpriteRectangle { y: (r1.y + 1) as i32, ..r1 }
                } else {
                    r1
                };
                let r3 = SpriteRectangle {
                    x: spec_clamp_coord(r2.x as int, r2.w as int) as i32,
                    y: spec_clamp_coord(r2.y as int, r2.h as int) as i32,
                    ..r2
                };
                let grounded = side == CollisionSide::Bottom;
                let masked = spec_side_mask(side) & cand.collision_filter;
                let a1 = Actor { rect: r3, ..a };
                if masked != 0 {
                    if a1.actor_type == ActorType::Item && cand.actor_type == ActorType::Player {
                        (
                            a1,
                            seq![
                                ActorMessage::UpdateScore(SCORE_GAME, a1.value),
                                ActorMessage::RemoveActor(a1.id),
                            ],
                            grounded,
                        )
                    } else if a1.actor_type == ActorType::Player && masked & SIDE_BOTTOM != 0 {
                        (Actor { state: STATE_IDLE, vy: 0, ..a1 }, Seq::empty(), grounded)
                    } else {
                        (a1, Seq::empty(), grounded)
                    }
                } else {
                    (a1, Seq::empty(), grounded)
                }
            },
        }
    }
}

/// The first `i` candidates applied in order, collecting every reply and
/// whether any of them was a bottom contact.
pub open spec fn spec_collide_fold(a: Actor, cands: Seq<ActorData>, i: int) -> (
    Actor,
    Seq<ActorMessage>,
    bool,
)
    decreases i,
{
    if i <= 0 {
        (a, Seq::empty(), false)
    } else {
        let folded = spec_collide_fold(a, cands, i - 1);
        let stepped = spec_collide_step(folded.0, cands[i - 1]);
        (stepped.0, folded.1 + stepped.1, folded.2 || stepped.2)
    }
}

/// The whole collision phase of one entity's step.  An entity that does
/// not pass the collision gate is left exactly as it is with no messages;
/// a gated entity is folded over all candidates in order, and an idle
/// player that found no bottom contact ends the phase airborne again.
pub open spec fn spec_collision_phase(a: Actor, cands: Seq<ActorData>) -> (
    Actor,
    Seq<ActorMessage>,
) {
    if !spec_collision_gate(a) {
        (a, Seq::empty())
    } else {
        let folded = spec_collide_fold(a, cands, cands.len() as int);
        let a2 = if !folded.2 && folded.0.actor_type == ActorType::Player && folded.0.state
            == STATE_IDLE {
            Actor { state: STATE_JUMPING, ..folded.0 }
        } else {
            folded.0
        };
        (a2, folded.1)
    }
}

/// The collision half of one entity's step, exactly as
/// `spec_collision_phase` states it: per candidate in order, classify,
/// un-stick to touching (one unit back into the ground after a bottom
/// hit), constrain to the world, mask the side by the candidate's filter
/// and deliver it, collecting the entity's replies; afterwards an idle
/// player that found no bottom contact goes airborne.  Replies only ever
/// concern this entity, never move the viewport and never report a
/// death; an entity that is no item replies nothing at all.
pub fn resolve_entity_collisions(actor: &mut Actor, cands: &Vec<ActorData>) -> (queue: Vec<
    ActorMessage,
>)
    requires
        actor_wf(*old(actor)),
        forall|j: int| 0 <= j < cands@.len() ==> rect_wf((#[trigger] cands@[j]).rect),
    ensures
        actor_wf(*final(actor)),
        *final(actor) == spec_collision_phase(*old(actor), cands@).0,
        queue@ == spec_collision_phase(*old(actor), cands@).1,
        final(actor).id == old(actor).id,
        final(actor).actor_type == old(actor).actor_type,
        forall|kk: i32| #[trigger] spec_messages_touch(queue@, kk) ==> kk == old(actor).id,
        !spec_messages_move_viewport(queue@),
        !spec_messages_have_death(queue@),
        crate::message::spec_simple_requests(queue@),
        old(actor).actor_type != ActorType::Item ==> queue@ == Seq::<ActorMessage>::empty(),
{
    let mut queue: Vec<ActorMessage> = Vec::new();
    if !(actor.checks_collision && !matches!(actor.actor_type, ActorType::Block)) {
        return queue;
    }
    let ghost orig = *actor;
    let mut grounded = false;
    let cn = cands.len();
    let mut c: usize = 0;
    while c < cn
        invariant
            cn == cands@.len(),
            c <= cn,
            actor_wf(*actor),
            spec_collision_gate(orig),
            ({
                let folded = spec_collide_fold(orig, cands@, c as int);
                *actor == folded.0 && queue@ == folded.1 && grounded == folded.2
            }),
            actor.id == orig.id,
            actor.actor_type == orig.actor_type,
            forall|j: int| 0 <= j < cands@.len() ==> rect_wf((#[trigger] cands@[j]).rect),
            forall|kk: i32| #[trigger] spec_messages_touch(queue@, kk) ==> kk == orig.id,
            !spec_messages_move_viewport(queue@),
            !spec_messages_have_death(queue@),
            crate::message::spec_simple_requests(queue@),
            orig.actor_type != ActorType::Item ==> queue@ == Seq::<ActorMessage>::empty(),
        decreases cn - c,
    {
        let ghost pre = *actor;
        let ghost pre_queue = queue@;
        let ghost pre_grounded = grounded;
        let cand = cands[c];
        if cand.id != actor.id {
            match actor.rect.collides_with(&cand.rect) {
                Option::Some(side) => {
                    resolve_collision(&mut actor.rect, &cand.rect, side);
                    proof {
                        assert(actor.rect == spec_resolved_rect(pre.rect, cand.rect, side));
                    }
                    if matches!(side, CollisionSide::Bottom) {
                        // rest one unit into the ground so the grounded
                        // state holds on the next frame
                        actor.rect.y = actor.rect.y + 1;
                        grounded = true;
                    }
                    actor.rect = GameView::clamp_to_world(&actor.rect);
                    let masked = side_mask(side) & cand.collision_filter;
                    if masked != 0 {
                        let ghost q0 = queue@;
                        let mut replies = actor.handle_message(
                            &ActorMessage::ActorAction {
                                send_id: cand.id,
                                recv_id: actor.id,
                                action: ActorAction::Collision(cand.actor_type, masked),
                            },
                        );
                        let ghost rep = replies@;
                        queue.append(&mut replies);
                        proof {
                            lemma_messages_split(q0, rep);
                            assert(queue@ == q0 + rep);
                            assert(crate::message::spec_simple_requests(rep)) by {
                                if rep.len() > 0 {
                                    assert(rep[0] == ActorMessage::UpdateScore(
                                        SCORE_GAME,
                                        pre.value,
                                    ));
                                    assert(rep[1] == ActorMessage::RemoveActor(pre.id));
                                }
                            }
                            assert forall|kk: i32| #[trigger]
                                spec_messages_touch(queue@, kk) implies kk == orig.id by {
                                assert(spec_messages_touch(q0, kk) || spec_messages_touch(
                                    rep,
                                    kk,
                                ));
                            }
                            if orig.actor_type != ActorType::Item {
                                assert(rep =~= Seq::<ActorMessage>::empty());
                                assert(queue@ =~= Seq::<ActorMessage>::empty());
                            }
                        }
                    }
                }
                Option::None => {}
            }
        }
        proof {
            let folded = spec_collide_fold(orig, cands@, c + 1);
            let stepped = spec_collide_step(pre, cands@[c as int]);
            assert(*actor == stepped.0 && queue@ == pre_queue + stepped.1 && grounded == (
            pre_grounded || stepped.2));
            if stepped.1.len() == 0 {
                assert(pre_queue + stepped.1 =~= pre_queue);
            }
        }
        c = c + 1;
    }
    // support lost: an idle player with no bottom contact this step
    // becomes airborne again
    if !grounded && matches!(actor.actor_type, ActorType::Player) && actor.state == STATE_IDLE {
        actor.state = STATE_JUMPING;
    }
    queue
}

/// Every candidate in the list is the snapshot of some stored,
/// in-viewport entity.
pub open spec fn spec_candidates_from(
    cands: Seq<ActorData>,
    actors: Map<i32, Actor>,
    vp: Viewport,
) -> bool {
    forall|j: int|
        0 <= j < cands.len() ==> exists|kk: i32|
            (#[trigger] actors.contains_key(kk)) && spec_overlaps(
                actors[kk].rect,
                spec_view_rect(vp),
            ) && (#[trigger] cands[j]) == actors[kk].spec_data()
}

/// Every stored, in-viewport entity overlapping the query rectangle has
/// its snapshot among the candidates: the broad phase never omits a true
/// overlap.
pub open spec fn spec_candidates_cover(
    cands: Seq<ActorData>,
    actors: Map<i32, Actor>,
    vp: Viewport,
    query: SpriteRectangle,
) -> bool {
    forall|kk: i32| #[trigger]
        actors.contains_key(kk) && spec_overlaps(actors[kk].rect, spec_view_rect(vp))
            && spec_overlaps(actors[kk].rect, query) ==> cands.contains(actors[kk].spec_data())
}

/// One entity fully stepped by the pass: some value `mid` related to the
/// old entity exactly by `Actor::update`'s law (`spec_updated`), and the
/// stored result equal to `mid`'s collision phase over some candidate
/// list drawn from the old in-viewport snapshots that — when the entity
/// passes the collision gate — covers everything overlapping `mid`'s
/// rectangle.
pub open spec fn spec_entity_stepped(
    pre: Actor,
    post: Actor,
    actors: Map<i32, Actor>,
    vp: Viewport,
    input: InputState,
) -> bool {
    exists|mid: Actor, cands: Seq<ActorData>|
        {
            &&& spec_updated(pre, mid, input)
            &&& spec_candidates_from(cands, actors, vp)
            &&& (spec_collision_gate(mid) ==> spec_candidates_cover(cands, actors, vp, mid.rect))
            &&& post == (#[trigger] spec_collision_phase(mid, cands)).0
        }
}

/// An entity whose own step asked for its removal: some `mid` related to
/// it by `Actor::update`'s law whose collision phase, over candidates the
/// broad phase provided, produced a message concerning the entity — with
/// this crate's handlers, its own eviction request.
pub open spec fn spec_entity_removal_requested(
    pre: Actor,
    actors: Map<i32, Actor>,
    vp: Viewport,
    input: InputState,
) -> bool {
    exists|mid: Actor, cands: Seq<ActorData>|
        {
            &&& spec_updated(pre, mid, input)
            &&& spec_candidates_from(cands, actors, vp)
            &&& (spec_collision_gate(mid) ==> spec_candidates_cover(cands, actors, vp, mid.rect))
            &&& spec_messages_touch((#[trigger] spec_collision_phase(mid, cands)).1, pre.id)
        }
}

/// The main game view used for the actual gameplay.
pub struct GameView {
    actors: ActorManager,
    viewport: Viewport,
    score: Score,
    window_width: u32,
    window_height: u32,
}

impl GameView {
    /// The stored entities, by identity.
    pub closed spec fn actors_view(&self) -> Map<i32, Actor> {
        self.actors.view()
    }

    /// The score counters.
    pub closed spec fn score_view(&self) -> Map<u32, i32> {
        self.score@
    }

    /// The active viewport.
    pub closed spec fn viewport_of(&self) -> Viewport {
        self.viewport
    }

    /// The window extents the view simulates over.
    pub closed spec fn window_of(&self) -> (u32, u32) {
        (self.window_width, self.window_height)
    }

    /// The store's identity bound: every identity it ever handed out is
    /// below this.
    pub closed spec fn store_bound(&self) -> i32 {
        self.actors.id_bound()
    }

    /// The store and viewport are well formed and the window extents are
    /// positive and inside the world bound.
    pub closed spec fn wf(&self) -> bool {
        &&& self.actors.wf()
        &&& viewport_wf(self.viewport)
        &&& 0 < self.window_width as int <= WORLD_BOUND as int
        &&& 0 < self.window_height as int <= WORLD_BOUND as int
    }

    /// A view over an already-populated store and initial viewport, as
    /// the level loader hands them in; the gameplay score counter is
    /// created at zero.
    pub fn new(actors: ActorManager, viewport: Viewport, window: &Window) -> (g: GameView)
        requires
            actors.wf(),
            viewport_wf(viewport),
            window_wf(*window),
        ensures
            g.wf(),
            g.actors_view() == actors.view(),
            g.viewport_of() == viewport,
            g.score_view() == Map::<u32, i32>::empty().insert(SCORE_GAME, 0),
            g.window_of() == (window.width, window.height),
    {
        let mut score = Score::new();
        score.add_score(SCORE_GAME);
        GameView {
            actors,
            viewport,
            score,
            window_width: window.width,
            window_height: window.height,
        }
    }

    /// Read access to the entity store.
    pub fn actor_store(&self) -> (r: &ActorManager)
        requires
            self.wf(),
        ensures
            r.view() == self.actors_view(),
            r.wf(),
    {
        &self.actors
    }

    /// The current value of a score counter.
    pub fn score_of(&self, name: u32) -> (r: Option<i32>)
        ensures
            r == if self.score_view().contains_key(name) {
                Option::Some(self.score_view()[name])
            } else {
                Option::None::<i32>
            },
    {
        self.score.score(name)
    }

    /// The active viewport.
    pub fn viewport(&self) -> (v: Viewport)
        ensures
            v == self.viewport_of(),
    {
        self.viewport
    }

    /// Interprets one message against the store, the viewport and the
    /// ledger; replies that still need dispatching are returned together
    /// with whether the message reported the player's death.  A message
    /// never disturbs the entry of a stored entity it does not touch,
    /// never moves the viewport unless it may, and its replies touch no
    /// more than it does and cost strictly less dispatch effort.
    fn apply_message(&mut self, msg: ActorMessage) -> (out: (Vec<ActorMessage>, bool))
        requires
            old(self).wf(),
        ensures
            final(self).wf(),
            final(self).window_of() == old(self).window_of(),
            out.1 == (msg is PlayerDied),
            spec_messages_work(out.0@) < spec_message_work(msg),
            forall|k: i32|
                spec_messages_touch(out.0@, k) ==> spec_message_touches(msg, k),
            !spec_messages_move_viewport(out.0@),
            !spec_messages_have_death(out.0@),
            forall|k: i32| #[trigger]
                old(self).actors_view().contains_key(k) && !spec_message_touches(msg, k) ==> final(self).actors_view().contains_key(k) && final(self).actors_view()[k] == old(self).actors_view()[k],
            !(msg matches ActorMessage::SetViewport(..)) ==> final(self).viewport_of() == old(self).viewport_of(),
            !(msg matches ActorMessage::UpdateScore(..)) ==> final(self).score_view() == old(self).score_view(),
            match msg {
                ActorMessage::AddActor(kind, px, py) => {
                    let rect = SpriteRectangle {
                        x: px,
                        y: py,
                        w: spec_kind_extent(kind),
                        h: spec_kind_extent(kind),
                    };
                    &&& (old(self).store_bound() < i32::MAX && rect_wf(rect)) ==> {
                        &&& !old(self).actors_view().contains_key(old(self).store_bound())
                        &&& final(self).actors_view() == old(self).actors_view().insert(
                            old(self).store_bound(),
                            final(self).actors_view()[old(self).store_bound()],
                        )
                        &&& final(self).actors_view()[old(self).store_bound()].id == old(self).store_bound()
                        &&& final(self).actors_view()[old(self).store_bound()].actor_type == kind
                        &&& final(self).actors_view()[old(self).store_bound()].rect == rect
                        &&& final(self).store_bound() == old(self).store_bound() + 1
                    }
                    &&& !(old(self).store_bound() < i32::MAX && rect_wf(rect)) ==> final(self).actors_view() == old(self).actors_view()
                },
                ActorMessage::RemoveActor(id) => final(self).actors_view() == old(self).actors_view().remove(id),
                ActorMessage::SetViewport(x, y) => {
                    &&& final(self).actors_view() == old(self).actors_view()
                    &&& final(self).viewport_of() == (Viewport {
                        x: crate::actor::spec_clamp_coord(x as int, 0) as i32,
                        y: crate::actor::spec_clamp_coord(y as int, 0) as i32,
                        ..old(self).viewport_of()
                    })
                },
                ActorMessage::UpdateScore(name, delta) => {
                    &&& final(self).actors_view() == old(self).actors_view()
                    &&& final(self).score_view() == old(self).score_view().insert(
                        name,
                        spec_saturate_add(
                            if old(self).score_view().contains_key(name) {
                                old(self).score_view()[name] as int
                            } else {
                                0int
                            },
                            delta as int,
                        ) as i32,
                    )
                },
                ActorMessage::ActorAction { recv_id, .. } => {
                    &&& (!old(self).actors_view().contains_key(recv_id) ==> final(self).actors_view() == old(self).actors_view() && out.0@ == Seq::<
                        ActorMessage,
                    >::empty())
                    &&& (old(self).actors_view().contains_key(recv_id) ==> final(self).actors_view() == old(self).actors_view().insert(
                        recv_id,
                        final(self).actors_view()[recv_id],
                    ))
                },
                ActorMessage::PlayerDied => final(self).actors_view() == old(self).actors_view(),
                ActorMessage::NoOp => final(self).actors_view() == old(self).actors_view(),
            },
    {
        match msg {
            ActorMessage::AddActor(kind, px, py) => {
                let _ = self.actors.add(kind, (px, py), GAME_FPS);
                (Vec::new(), false)
            }
            ActorMessage::RemoveActor(id) => {
                self.actors.remove(id);
                (Vec::new(), false)
            }
            ActorMessage::SetViewport(x, y) => {
                let cx: i32 = if x > WORLD_BOUND {
                    WORLD_BOUND
                } else if x < -WORLD_BOUND {
                    -WORLD_BOUND
                } else {
                    x
                };
                let cy: i32 = if y > WORLD_BOUND {
                    WORLD_BOUND
                } else if y < -WORLD_BOUND {
                    -WORLD_BOUND
                } else {
                    y
                };
                self.viewport.set_position((cx, cy));
                (Vec::new(), false)
            }
            ActorMessage::UpdateScore(name, delta) => {
                self.score.increment_score(name, delta);
                (Vec::new(), false)
            }
            ActorMessage::ActorAction { send_id, recv_id, action } => {
                match self.actors.temp_remove(recv_id) {
                    Option::Some(mut actor) => {
                        let replies = actor.handle_message(
                            &ActorMessage::ActorAction { send_id, recv_id, action },
                        );
                        self.actors.temp_reinsert(recv_id, actor);
                        (replies, false)
                    }
                    Option::None => (Vec::new(), false),
                }
            }
            ActorMessage::PlayerDied => (Vec::new(), true),
            ActorMessage::NoOp => (Vec::new(), false),
        }
    }

    /// Drains a message queue in first-in-first-out order, following
    /// replies, until it is empty or the effort cap is hit; hitting the
    /// cap means a forwarding cycle and is a fatal configuration error,
    /// and provably cannot happen when the queue's total effort is within
    /// the cap.  Entities no message touches keep their entries, the
    /// viewport only moves for a viewport message, and the player's death
    /// is reported exactly when a dispatched message reports it.
    fn process_messages(&mut self, initial: Vec<ActorMessage>) -> (r: Result<bool, DispatchError>)
        requires
            old(self).wf(),
        ensures
            final(self).wf(),
            final(self).window_of() == old(self).window_of(),
            spec_messages_work(initial@) <= MESSAGE_CAP ==> r is Ok,
            forall|k: i32| #[trigger]
                old(self).actors_view().contains_key(k) && !spec_messages_touch(initial@, k)
                    ==> final(self).actors_view().contains_key(k) && final(self).actors_view()[k]
                    == old(self).actors_view()[k],
            !spec_messages_move_viewport(initial@) ==> final(self).viewport_of() == old(self).viewport_of(),
            !spec_messages_have_death(initial@) ==> (r matches Result::Ok(d) ==> d == false),
            crate::message::spec_simple_requests(initial@) ==> forall|k: i32| #[trigger]
                old(self).actors_view().contains_key(k) ==> !final(self).actors_view().contains_key(k) || final(self).actors_view()[k] == old(self).actors_view()[k],
            crate::message::spec_simple_requests(initial@) ==> forall|k: i32|
                !old(self).actors_view().contains_key(k) ==> !(#[trigger] final(self).actors_view().contains_key(k)),
    {
        let mut queue = initial;
        let ghost init = queue@;
        let mut steps: usize = 0;
        let mut died = false;
        proof {
            lemma_messages_work_at_least_len(init);
        }
        while queue.len() > 0 && steps < MESSAGE_CAP
            invariant
                self.wf(),
                self.window_of() == old(self).window_of(),
                steps <= MESSAGE_CAP,
                steps + spec_messages_work(queue@) <= spec_messages_work(init),
                forall|k: i32| spec_messages_touch(queue@, k) ==> spec_messages_touch(init, k),
                spec_messages_move_viewport(queue@) ==> spec_messages_move_viewport(init),
                spec_messages_have_death(queue@) ==> spec_messages_have_death(init),
                forall|k: i32| #[trigger]
                    old(self).actors_view().contains_key(k) && !spec_messages_touch(init, k)
                        ==> self.actors_view().contains_key(k) && self.actors_view()[k] == old(self).actors_view()[k],
                !spec_messages_move_viewport(init) ==> self.viewport_of() == old(self).viewport_of(),
                !spec_messages_have_death(init) ==> died == false,
                crate::message::spec_simple_requests(init) ==> crate::message::spec_simple_requests(
                    queue@,
                ),
                crate::message::spec_simple_requests(init) ==> forall|k: i32| #[trigger]
                    old(self).actors_view().contains_key(k)
                        ==> !self.actors_view().contains_key(k) || self.actors_view()[k] == old(self).actors_view()[k],
                crate::message::spec_simple_requests(init) ==> forall|k: i32|
                    !old(self).actors_view().contains_key(k) ==> !(
                    #[trigger] self.actors_view().contains_key(k)),
            decreases MESSAGE_CAP - steps,
        {
            let ghost q0 = queue@;
            let msg = queue.remove(0);
            proof {
                assert(q0.remove(0) =~= q0.drop_first());
            }
            let ghost mid = *self;
            let (mut replies, d) = self.apply_message(msg);
            if d {
                died = true;
            }
            let ghost rep = replies@;
            queue.append(&mut replies);
            proof {
                lemma_messages_split(q0.drop_first(), rep);
                assert(spec_messages_work(q0) == spec_message_work(msg) + spec_messages_work(
                    q0.drop_first(),
                ));
                assert forall|k: i32|
                    spec_messages_touch(queue@, k) implies spec_messages_touch(init, k) by {
                    if spec_messages_touch(rep, k) {
                        assert(spec_message_touches(msg, k));
                    }
                }
                assert forall|k: i32| #[trigger]
                    old(self).actors_view().contains_key(k) && !spec_messages_touch(
                        init,
                        k,
                    ) implies self.actors_view().contains_key(k) && self.actors_view()[k] == old(self).actors_view()[k] by {
                    assert(!spec_message_touches(msg, k));
                    assert(mid.actors_view().contains_key(k) && mid.actors_view()[k] == old(self).actors_view()[k]);
                }
                if crate::message::spec_simple_requests(init) {
                    assert(crate::message::spec_simple_requests(q0));
                    assert(q0[0] == msg);
                    assert(crate::message::spec_simple_requests(q0.drop_first())) by {
                        assert forall|j: int|
                            0 <= j < q0.drop_first().len() implies ((#[trigger] q0.drop_first()[j])
                                matches ActorMessage::RemoveActor(_) || q0.drop_first()[j]
                                matches ActorMessage::UpdateScore(..) || q0.drop_first()[j]
                                is NoOp) by {
                            assert(q0.drop_first()[j] == q0[j + 1]);
                        }
                    }
                    lemma_messages_work_at_least_len(rep);
                    assert(rep =~= Seq::<ActorMessage>::empty());
                    assert(crate::message::spec_simple_requests(rep));
                    assert forall|k: i32| #[trigger]
                        old(self).actors_view().contains_key(k) implies !self.actors_view().contains_key(
                        k,
                    ) || self.actors_view()[k] == old(self).actors_view()[k] by {
                        if mid.actors_view().contains_key(k) && mid.actors_view()[k] == old(self).actors_view()[k] {
                        }
                    }
                    assert forall|k: i32|
                        !old(self).actors_view().contains_key(k) implies !(
                    #[trigger] self.actors_view().contains_key(k)) by {
                        assert(!mid.actors_view().contains_key(k));
                    }
                }
            }
            steps = steps + 1;
        }
        if queue.len() > 0 {
            proof {
                lemma_messages_work_at_least_len(queue@);
            }
            Result::Err(DispatchError::MessageCycle)
        } else {
            Result::Ok(died)
        }
    }

    /// Clamps a rectangle that resolution may have pushed outside the
    /// world back into it.
    fn clamp_to_world(r: &SpriteRectangle) -> (out: SpriteRectangle)
        requires
            0 < r.w as int <= 2 * WORLD_BOUND as int,
            0 < r.h as int <= 2 * WORLD_BOUND as int,
        ensures
            rect_wf(out),
            out.w == r.w && out.h == r.h,
            out.x as int == crate::actor::spec_clamp_coord(r.x as int, r.w as int),
            out.y as int == crate::actor::spec_clamp_coord(r.y as int, r.h as int),
    {
        let hi_x: i64 = WORLD_BOUND as i64 - r.w as i64;
        let hi_y: i64 = WORLD_BOUND as i64 - r.h as i64;
        let cx: i64 = if r.x as i64 > hi_x {
            hi_x
        } else if (r.x as i64) < -(WORLD_BOUND as i64) {
            -(WORLD_BOUND as i64)
        } else {
            r.x as i64
        };
        let cy: i64 = if r.y as i64 > hi_y {
            hi_y
        } else if (r.y as i64) < -(WORLD_BOUND as i64) {
            -(WORLD_BOUND as i64)
        } else {
            r.y as i64
        };
        SpriteRectangle { x: cx as i32, y: cy as i32, w: r.w, h: r.h }
    }

    /// One simulation step: snapshot, viewport filter, quadtree build,
    /// and per-entity update, collision resolution, message delivery and
    /// reinsertion; the viewport follows the player.  The ensures pin the
    /// pass-level laws: off-viewport entities are frozen, blocks never
    /// move, each surviving in-viewport entity was updated by
    /// `Actor::update`'s law and put through the exact collision phase
    /// over broad-phase candidates, an entity leaves the store only
    /// through its own collision response — and then only after its own
    /// phase requested it — and the viewport ends on the unique player's
    /// post-update position.
    fn simulate(&mut self, input: &InputState, elapsed: u32) -> (r: Result<bool, DispatchError>)
        requires
            old(self).wf(),
        ensures
            final(self).wf(),
            final(self).window_of() == old(self).window_of(),
            r matches Result::Ok(d) ==> d == false,
            old(self).actors_view().dom() == Set::<i32>::empty() ==> r == Result::Ok::<
                bool,
                DispatchError,
            >(false) && *final(self) == *old(self),
            // only items answer collisions with messages, so a store
            // without items can never hit the dispatch cap
            (forall|k: i32| #[trigger]
                old(self).actors_view().contains_key(k) ==> old(self).actors_view()[k].actor_type
                    != ActorType::Item) ==> r is Ok,
            // off-viewport entities are frozen: not indexed, not updated,
            // not collided, not messaged
            forall|k: i32| #[trigger]
                old(self).actors_view().contains_key(k) && !spec_overlaps(
                    old(self).actors_view()[k].rect,
                    spec_view_rect(old(self).viewport_of()),
                ) ==> final(self).actors_view().contains_key(k) && final(self).actors_view()[k]
                    == old(self).actors_view()[k],
            // an entity leaves the store only through its own collision
            // response, which only an engaged, in-viewport entity can give
            forall|k: i32| #[trigger]
                old(self).actors_view().contains_key(k) ==> final(self).actors_view().contains_key(k) || (spec_overlaps(
                    old(self).actors_view()[k].rect,
                    spec_view_rect(old(self).viewport_of()),
                ) && spec_collision_gate(old(self).actors_view()[k])),
            // each surviving in-viewport entity was stepped exactly:
            // updated by `Actor::update`'s law, then put through its
            // collision phase over broad-phase candidates
            forall|k: i32|
                (#[trigger] old(self).actors_view().contains_key(k) && spec_overlaps(
                    old(self).actors_view()[k].rect,
                    spec_view_rect(old(self).viewport_of()),
                ) && r is Ok && final(self).actors_view().contains_key(k)) ==> spec_entity_stepped(
                    old(self).actors_view()[k],
                    final(self).actors_view()[k],
                    old(self).actors_view(),
                    old(self).viewport_of(),
                    *input,
                ),
            // an evicted entity's own collision phase requested it
            forall|k: i32|
                (#[trigger] old(self).actors_view().contains_key(k) && r is Ok && !final(self).actors_view().contains_key(k)) ==> spec_entity_removal_requested(
                    old(self).actors_view()[k],
                    old(self).actors_view(),
                    old(self).viewport_of(),
                    *input,
                ),
            // blocks never move or change state
            forall|k: i32| #[trigger]
                old(self).actors_view().contains_key(k) && old(self).actors_view()[k].actor_type
                    == ActorType::Block ==> final(self).actors_view().contains_key(k) && final(self).actors_view()[k].rect == old(self).actors_view()[k].rect && final(self).actors_view()[k].state == old(self).actors_view()[k].state,
            // with no player in the viewport the viewport does not move
            (forall|k: i32| #[trigger]
                old(self).actors_view().contains_key(k) && spec_overlaps(
                    old(self).actors_view()[k].rect,
                    spec_view_rect(old(self).viewport_of()),
                ) ==> old(self).actors_view()[k].actor_type != ActorType::Player) ==> final(self).viewport_of() == old(self).viewport_of(),
            // the viewport ends centered on the unique player's
            // post-update position
            forall|p: i32|
                (#[trigger] old(self).actors_view().contains_key(p) && old(self).actors_view()[p].actor_type == ActorType::Player && spec_overlaps(
                    old(self).actors_view()[p].rect,
                    spec_view_rect(old(self).viewport_of()),
                ) && (forall|q: i32| #[trigger]
                    old(self).actors_view().contains_key(q) && old(self).actors_view()[q].actor_type == ActorType::Player ==> q == p) && r is Ok)
                    ==> final(self).actors_view().contains_key(p) && final(self).viewport_of() == (
                Viewport {
                    x: final(self).actors_view()[p].rect.x,
                    y: final(self).actors_view()[p].rect.y,
                    ..old(self).viewport_of()
                }),
    {
        let ids = self.actors.ids_vec();
        let region = SpriteRectangle {
            x: 0,
            y: 0,
            w: self.window_width,
            h: self.window_height,
        };
        let mut tree = Quadtree::new(region);
        let mut live: Vec<i32> = Vec::new();
        let n = ids.len();
        let mut i: usize = 0;
        while i < n
            invariant
                *self == *old(self),
                self.wf(),
                n == ids@.len(),
                ids@ == self.actors.ids_of(),
                ids@.no_duplicates(),
                forall|kk: i32| ids@.contains(kk) <==> self.actors_view().contains_key(kk),
                i <= n,
                tree.wf(),
                live@.no_duplicates(),
                forall|j: int|
                    0 <= j < live@.len() ==> ids@.take(i as int).contains(#[trigger] live@[j]),
                forall|j: int|
                    0 <= j < live@.len() ==> self.actors_view().contains_key(#[trigger] live@[j])
                        && spec_overlaps(
                        self.actors_view()[live@[j]].rect,
                        spec_view_rect(self.viewport_of()),
                    ),
                forall|m: int|
                    0 <= m < i && self.actors_view().contains_key(#[trigger] ids@[m])
                        && spec_overlaps(
                        self.actors_view()[ids@[m]].rect,
                        spec_view_rect(self.viewport_of()),
                    ) ==> live@.contains(ids@[m]),
                forall|x: ActorData| #[trigger]
                    tree.contents().contains(x) ==> exists|kk: i32|
                        (#[trigger] self.actors_view().contains_key(kk)) && spec_overlaps(
                            self.actors_view()[kk].rect,
                            spec_view_rect(self.viewport_of()),
                        ) && x == self.actors_view()[kk].spec_data(),
                forall|m: int|
                    0 <= m < i && self.actors_view().contains_key(#[trigger] ids@[m])
                        && spec_overlaps(
                        self.actors_view()[ids@[m]].rect,
                        spec_view_rect(self.viewport_of()),
                    ) ==> tree.contents().contains(self.actors_view()[ids@[m]].spec_data()),
            decreases n - i,
        {
            let id = ids[i];
            let ghost prev_live = live@;
            let ghost prev_tree = tree;
            match self.actors.get(id) {
                Option::Some(actor) => {
                    let d = actor.data();
                    match self.viewport.constrain_to_viewport(&d.rect) {
                        Option::Some(_) => {
                            proof {
                                assert(!ids@.take(i as int).contains(id)) by {
                                    if ids@.take(i as int).contains(id) {
                                        let mm = choose|mm: int|
                                            0 <= mm < ids@.take(i as int).len() && ids@.take(
                                                i as int,
                                            )[mm] == id;
                                        assert(ids@[mm] == id && ids@[i as int] == id);
                                    }
                                }
                                assert(!live@.contains(id));
                                crate::actor_manager::lemma_push_id(live@, id);
                            }
                            live.push(id);
                            tree.insert(d);
                            proof {
                                assert(d == self.actors_view()[id].spec_data());
                                assert forall|x: ActorData| #[trigger]
                                    tree.contents().contains(x) implies exists|kk: i32|
                                    (#[trigger] self.actors_view().contains_key(kk))
                                        && spec_overlaps(
                                        self.actors_view()[kk].rect,
                                        spec_view_rect(self.viewport_of()),
                                    ) && x == self.actors_view()[kk].spec_data() by {
                                    if x != d {
                                        assert(prev_tree.contents().contains(x));
                                    } else {
                                        assert(self.actors_view().contains_key(id));
                                    }
                                }
                            }
                        }
                        Option::None => {}
                    }
                }
                Option::None => {}
            }
            proof {
                assert(ids@.take(i + 1) =~= ids@.take(i as int).push(ids@[i as int]));
                assert forall|j: int|
                    0 <= j < live@.len() implies ids@.take(i + 1).contains(
                    #[trigger] live@[j],
                ) by {
                    if j < prev_live.len() {
                        let mm = choose|mm: int|
                            0 <= mm < ids@.take(i as int).len() && (#[trigger] ids@.take(
                                i as int,
                            )[mm]) == live@[j];
                        assert(ids@.take(i + 1)[mm] == live@[j]);
                    } else {
                        assert(live@[j] == id);
                        assert(ids@.take(i + 1)[i as int] == id);
                    }
                }
            }
            i = i + 1;
        }
        proof {
            assert(ids@.take(n as int) =~= ids@);
            assert forall|kk: i32| #[trigger]
                old(self).actors_view().contains_key(kk) && spec_overlaps(
                    old(self).actors_view()[kk].rect,
                    spec_view_rect(old(self).viewport_of()),
                ) implies tree.contents().contains(old(self).actors_view()[kk].spec_data()) by {
                assert(ids@.contains(kk));
                let mm = choose|mm: int| 0 <= mm < ids@.len() && ids@[mm] == kk;
            }
            assert forall|kk: i32| #[trigger]
                old(self).actors_view().contains_key(kk) && spec_overlaps(
                    old(self).actors_view()[kk].rect,
                    spec_view_rect(old(self).viewport_of()),
                ) implies live@.contains(kk) by {
                assert(ids@.contains(kk));
                let mm = choose|mm: int| 0 <= mm < ids@.len() && ids@[mm] == kk;
            }
        }
        let m = live.len();
        let mut k: usize = 0;
        while k < m
            invariant
                self.wf(),
                self.window_of() == old(self).window_of(),
                m == live@.len(),
                k <= m,
                tree.wf(),
                live@.no_duplicates(),
                live@.take(k as int).len() == 0 ==> *self == *old(self),
                forall|j: int|
                    0 <= j < live@.len() ==> old(self).actors_view().contains_key(
                        #[trigger] live@[j],
                    ) && spec_overlaps(
                        old(self).actors_view()[live@[j]].rect,
                        spec_view_rect(old(self).viewport_of()),
                    ),
                forall|kk: i32|
                    old(self).actors_view().contains_key(kk) && !live@.take(k as int).contains(kk)
                        ==> (#[trigger] self.actors_view().contains_key(kk))
                        && self.actors_view()[kk] == old(self).actors_view()[kk],
                forall|kk: i32| #[trigger]
                    old(self).actors_view().contains_key(kk) ==> self.actors_view().contains_key(
                        kk,
                    ) || (spec_overlaps(
                        old(self).actors_view()[kk].rect,
                        spec_view_rect(old(self).viewport_of()),
                    ) && spec_collision_gate(old(self).actors_view()[kk])),
                forall|kk: i32| #[trigger]
                    old(self).actors_view().contains_key(kk) && old(self).actors_view()[kk].actor_type == ActorType::Block
                        ==> self.actors_view().contains_key(kk) && self.actors_view()[kk].rect
                        == old(self).actors_view()[kk].rect && self.actors_view()[kk].state == old(self).actors_view()[kk].state,
                (forall|j: int|
                    0 <= j < k ==> old(self).actors_view()[#[trigger] live@[j]].actor_type
                        != ActorType::Player) ==> self.viewport_of() == old(self).viewport_of(),
                forall|p: i32|
                    (#[trigger] old(self).actors_view().contains_key(p) && old(self).actors_view()[p].actor_type == ActorType::Player && (forall|q: i32|
                        #[trigger] old(self).actors_view().contains_key(q) && old(self).actors_view()[q].actor_type == ActorType::Player ==> q == p)
                        && live@.take(k as int).contains(p)) ==> self.actors_view().contains_key(
                        p,
                    ) && self.viewport_of() == (Viewport {
                        x: self.actors_view()[p].rect.x,
                        y: self.actors_view()[p].rect.y,
                        ..old(self).viewport_of()
                    }),
                forall|kk: i32| #[trigger]
                    old(self).actors_view().contains_key(kk) && spec_overlaps(
                        old(self).actors_view()[kk].rect,
                        spec_view_rect(old(self).viewport_of()),
                    ) ==> live@.contains(kk),
                forall|x: ActorData| #[trigger]
                    tree.contents().contains(x) ==> exists|kk: i32|
                        (#[trigger] old(self).actors_view().contains_key(kk)) && spec_overlaps(
                            old(self).actors_view()[kk].rect,
                            spec_view_rect(old(self).viewport_of()),
                        ) && x == old(self).actors_view()[kk].spec_data(),
                forall|kk: i32| #[trigger]
                    old(self).actors_view().contains_key(kk) && spec_overlaps(
                        old(self).actors_view()[kk].rect,
                        spec_view_rect(old(self).viewport_of()),
                    ) ==> tree.contents().contains(old(self).actors_view()[kk].spec_data()),
                forall|kk: i32|
                    old(self).actors_view().contains_key(kk) && live@.take(k as int).contains(kk)
                        && (#[trigger] self.actors_view().contains_key(kk))
                        ==> spec_entity_stepped(
                        old(self).actors_view()[kk],
                        self.actors_view()[kk],
                        old(self).actors_view(),
                        old(self).viewport_of(),
                        *input,
                    ),
                forall|kk: i32|
                    old(self).actors_view().contains_key(kk) && live@.take(k as int).contains(kk)
                        && !(#[trigger] self.actors_view().contains_key(kk))
                        ==> spec_entity_removal_requested(
                        old(self).actors_view()[kk],
                        old(self).actors_view(),
                        old(self).viewport_of(),
                        *input,
                    ),
            decreases m - k,
        {
            let id = live[k];
            proof {
                assert(!live@.take(k as int).contains(id)) by {
                    if live@.take(k as int).contains(id) {
                        let jj = choose|jj: int|
                            0 <= jj < live@.take(k as int).len() && live@.take(k as int)[jj] == id;
                        assert(live@[jj] == id && live@[k as int] == id);
                    }
                }
            }
            let ghost pre_iter = *self;
            match self.actors.temp_remove(id) {
                Option::None => {
                    // an id evicted by an earlier message this pass would
                    // be silently skipped here, per the store's failure
                    // semantics; with this crate's handlers a message can
                    // only evict the entity it was addressed to, so the
                    // case is provably never taken
                    proof {
                        assert(false);
                    }
                }
                Option::Some(mut actor) => {
                    let ghost orig = actor;
                    proof {
                        assert(orig == old(self).actors_view()[id]);
                    }
                    let _ = actor.update(input, elapsed);
                    let ghost post_update = actor;
                    let cands: Vec<ActorData> = if actor.checks_collision && !matches!(
                        actor.actor_type,
                        ActorType::Block,
                    ) {
                        tree.retrieve(&actor.rect)
                    } else {
                        Vec::new()
                    };
                    proof {
                        assert forall|j: int| 0 <= j < cands@.len() implies rect_wf(
                            (#[trigger] cands@[j]).rect,
                        ) by {
                            if spec_collision_gate(post_update) {
                                assert(cands@.contains(cands@[j]));
                            }
                        }
                    }
                    let queue = resolve_entity_collisions(&mut actor, &cands);
                    let ghost engaged = spec_collision_gate(post_update);
                    let is_player = matches!(actor.actor_type, ActorType::Player);
                    let pos = (actor.rect.x, actor.rect.y);
                    let ghost checked_in = actor;
                    self.actors.temp_reinsert(id, actor);
                    if is_player {
                        self.viewport.set_position(pos);
                    }
                    let ghost pre_dispatch = *self;
                    let ghost gq = queue@;
                    let outcome = self.process_messages(queue);
                    proof {
                        lemma_live_take_full(live@, k as int, id);
                        // entries other than this entity's are untouched by
                        // the whole iteration
                        assert forall|kk: i32|
                            kk != id && pre_iter.actors_view().contains_key(kk) implies (
                        #[trigger] self.actors_view().contains_key(kk)) && self.actors_view()[kk]
                            == pre_iter.actors_view()[kk] by {
                            assert(pre_dispatch.actors_view().contains_key(kk)
                                && pre_dispatch.actors_view()[kk] == pre_iter.actors_view()[kk]);
                            assert(!spec_messages_touch(gq, kk));
                        }
                        assert forall|kk: i32|
                            old(self).actors_view().contains_key(kk) && !live@.take(
                                k + 1,
                            ).contains(kk) implies (#[trigger] self.actors_view().contains_key(
                            kk,
                        )) && self.actors_view()[kk] == old(self).actors_view()[kk] by {
                            assert(kk != id);
                            assert(!live@.take(k as int).contains(kk));
                            assert(pre_iter.actors_view().contains_key(kk)
                                && pre_iter.actors_view()[kk] == old(self).actors_view()[kk]);
                            assert(pre_dispatch.actors_view().contains_key(kk)
                                && pre_dispatch.actors_view()[kk] == pre_iter.actors_view()[kk]);
                            assert(!spec_messages_touch(gq, kk));
                        }
                        // this entity is present unless its own collision
                        // response evicted it, which only an engaged
                        // entity can give
                        assert(spec_collision_gate(orig) == spec_collision_gate(
                            old(self).actors_view()[id],
                        ));
                        assert(pre_dispatch.actors_view().contains_key(id)
                            && pre_dispatch.actors_view()[id] == checked_in);
                        if !self.actors_view().contains_key(id) {
                            assert(gq.len() > 0) by {
                                if gq.len() == 0 {
                                    assert(!spec_messages_touch(gq, id));
                                }
                            }
                            assert(engaged);
                        }
                        // a block is engaged by nothing: it keeps its
                        // place and state
                        if old(self).actors_view()[id].actor_type == ActorType::Block {
                            assert(orig.actor_type == ActorType::Block);
                            assert(post_update.rect == orig.rect && post_update.state
                                == orig.state);
                            assert(!engaged);
                            assert(checked_in == post_update);
                            assert(gq =~= Seq::<ActorMessage>::empty());
                            assert(!spec_messages_touch(gq, id));
                            assert(self.actors_view().contains_key(id)
                                && self.actors_view()[id] == checked_in);
                        }
                        assert forall|kk: i32| #[trigger]
                            old(self).actors_view().contains_key(kk) && old(self).actors_view()[kk].actor_type
                                == ActorType::Block implies self.actors_view().contains_key(kk)
                            && self.actors_view()[kk].rect == old(self).actors_view()[kk].rect
                            && self.actors_view()[kk].state == old(self).actors_view()[kk].state by {
                            if kk != id {
                                assert(pre_iter.actors_view().contains_key(kk)
                                    && pre_iter.actors_view()[kk].rect == old(self).actors_view()[kk].rect && pre_iter.actors_view()[kk].state
                                    == old(self).actors_view()[kk].state);
                                assert(pre_dispatch.actors_view().contains_key(kk)
                                    && pre_dispatch.actors_view()[kk]
                                    == pre_iter.actors_view()[kk]);
                                assert(!spec_messages_touch(gq, kk));
                            }
                        }
                        // viewport motion tracking
                        if old(self).actors_view()[id].actor_type != ActorType::Player {
                            assert(!is_player);
                            assert(pre_dispatch.viewport_of() == pre_iter.viewport_of());
                            assert(self.viewport_of() == pre_dispatch.viewport_of());
                        }
                        assert forall|p: i32|
                            (#[trigger] old(self).actors_view().contains_key(p) && old(self).actors_view()[p].actor_type == ActorType::Player && (forall|q: i32|
                                #[trigger] old(self).actors_view().contains_key(q) && old(self).actors_view()[q].actor_type == ActorType::Player ==> q == p)
                                && live@.take(k + 1).contains(p)) implies self.actors_view().contains_key(
                            p,
                        ) && self.viewport_of() == (Viewport {
                            x: self.actors_view()[p].rect.x,
                            y: self.actors_view()[p].rect.y,
                            ..old(self).viewport_of()
                        }) by {
                            if p == id {
                                assert(orig.actor_type == ActorType::Player);
                                assert(orig.actor_type != ActorType::Item);
                                assert(gq =~= Seq::<ActorMessage>::empty());
                                assert(!spec_messages_touch(gq, p));
                                assert(self.actors_view().contains_key(p)
                                    && self.actors_view()[p] == checked_in);
                                assert(is_player);
                                assert(pre_dispatch.viewport_of() == (Viewport {
                                    x: checked_in.rect.x,
                                    y: checked_in.rect.y,
                                    ..pre_iter.viewport_of()
                                }));
                                assert(self.viewport_of() == pre_dispatch.viewport_of());
                            } else {
                                assert(live@.take(k as int).contains(p));
                                assert(old(self).actors_view()[id].actor_type
                                    != ActorType::Player);
                                assert(!is_player);
                                assert(pre_iter.actors_view().contains_key(p));
                                assert(pre_dispatch.actors_view().contains_key(p)
                                    && pre_dispatch.actors_view()[p]
                                    == pre_iter.actors_view()[p]);
                                assert(!spec_messages_touch(gq, p));
                                assert(self.actors_view().contains_key(p)
                                    && self.actors_view()[p] == pre_iter.actors_view()[p]);
                                assert(self.viewport_of() == pre_iter.viewport_of());
                            }
                        }
                        // the processed entity, where it survived, was
                        // stepped exactly: updated, then folded over a
                        // candidate list the broad phase provided
                        assert(spec_candidates_from(
                            cands@,
                            old(self).actors_view(),
                            old(self).viewport_of(),
                        )) by {
                            assert forall|j: int| 0 <= j < cands@.len() implies exists|kk2: i32|
                                (#[trigger] old(self).actors_view().contains_key(kk2))
                                    && spec_overlaps(
                                    old(self).actors_view()[kk2].rect,
                                    spec_view_rect(old(self).viewport_of()),
                                ) && (#[trigger] cands@[j]) == old(self).actors_view()[kk2].spec_data() by {
                                assert(cands@.contains(cands@[j]));
                                assert(tree.contents().contains(cands@[j]));
                            }
                        }
                        assert(spec_collision_gate(post_update) ==> spec_candidates_cover(
                            cands@,
                            old(self).actors_view(),
                            old(self).viewport_of(),
                            post_update.rect,
                        )) by {
                            if spec_collision_gate(post_update) {
                                assert forall|kk2: i32| #[trigger]
                                    old(self).actors_view().contains_key(kk2) && spec_overlaps(
                                        old(self).actors_view()[kk2].rect,
                                        spec_view_rect(old(self).viewport_of()),
                                    ) && spec_overlaps(
                                        old(self).actors_view()[kk2].rect,
                                        post_update.rect,
                                    ) implies cands@.contains(
                                    old(self).actors_view()[kk2].spec_data(),
                                ) by {
                                    assert(tree.contents().contains(
                                        old(self).actors_view()[kk2].spec_data(),
                                    ));
                                }
                            }
                        }
                        assert(spec_updated(old(self).actors_view()[id], post_update, *input));
                        assert(checked_in == spec_collision_phase(post_update, cands@).0);
                        assert(spec_entity_stepped(
                            old(self).actors_view()[id],
                            checked_in,
                            old(self).actors_view(),
                            old(self).viewport_of(),
                            *input,
                        ));
                        assert forall|kk: i32|
                            old(self).actors_view().contains_key(kk) && live@.take(
                                k + 1,
                            ).contains(kk) && !(#[trigger] self.actors_view().contains_key(
                            kk,
                        )) implies spec_entity_removal_requested(
                            old(self).actors_view()[kk],
                            old(self).actors_view(),
                            old(self).viewport_of(),
                            *input,
                        ) by {
                            if kk == id {
                                assert(crate::message::spec_simple_requests(gq));
                                assert(spec_messages_touch(gq, id));
                                assert(spec_entity_removal_requested(
                                    old(self).actors_view()[id],
                                    old(self).actors_view(),
                                    old(self).viewport_of(),
                                    *input,
                                ));
                            } else {
                                assert(live@.take(k as int).contains(kk));
                                assert(crate::message::spec_simple_requests(gq));
                                assert(!pre_iter.actors_view().contains_key(kk)) by {
                                    if pre_iter.actors_view().contains_key(kk) {
                                        assert(self.actors_view().contains_key(kk));
                                    }
                                }
                            }
                        }
                        assert forall|kk: i32|
                            old(self).actors_view().contains_key(kk) && live@.take(
                                k + 1,
                            ).contains(kk) && (#[trigger] self.actors_view().contains_key(
                            kk,
                        )) implies spec_entity_stepped(
                            old(self).actors_view()[kk],
                            self.actors_view()[kk],
                            old(self).actors_view(),
                            old(self).viewport_of(),
                            *input,
                        ) by {
                            if kk == id {
                                assert(crate::message::spec_simple_requests(gq));
                                assert(self.actors_view()[id] == checked_in);
                            } else {
                                assert(live@.take(k as int).contains(kk));
                                assert(crate::message::spec_simple_requests(gq));
                                assert(pre_dispatch.actors_view().contains_key(kk));
                                assert(pre_iter.actors_view().contains_key(kk));
                                assert(self.actors_view()[kk] == pre_iter.actors_view()[kk]);
                            }
                        }
                    }
                    match outcome {
                        Result::Ok(_) => {}
                        Result::Err(e) => {
                            proof {
                                assert(old(self).actors_view().dom().contains(id));
                                if forall|kk: i32| #[trigger]
                                    old(self).actors_view().contains_key(kk) ==> old(self).actors_view()[kk].actor_type != ActorType::Item {
                                    assert(orig.actor_type != ActorType::Item);
                                    assert(gq =~= Seq::<ActorMessage>::empty());
                                    assert(spec_messages_work(gq) == 0);
                                    assert(false);
                                }
                            }
                            return Result::Err(e);
                        }
                    }
                }
            }
            k = k + 1;
        }
        proof {
            assert(live@.take(m as int) =~= live@);
            if old(self).actors_view().dom() == Set::<i32>::empty() {
                assert(live@.len() == 0) by {
                    if live@.len() > 0 {
                        assert(old(self).actors_view().contains_key(live@[0]));
                        assert(old(self).actors_view().dom().contains(live@[0]));
                    }
                }
                assert(live@.take(0) =~= live@);
            }
            // an entity off the viewport is never in the live list
            assert forall|kk: i32| #[trigger]
                old(self).actors_view().contains_key(kk) && !spec_overlaps(
                    old(self).actors_view()[kk].rect,
                    spec_view_rect(old(self).viewport_of()),
                ) implies self.actors_view().contains_key(kk) && self.actors_view()[kk] == old(self).actors_view()[kk] by {
                assert(!live@.contains(kk)) by {
                    if live@.contains(kk) {
                        let j = choose|j: int| 0 <= j < live@.len() && live@[j] == kk;
                    }
                }
            }
            // a unique in-viewport player always made the live list
            assert forall|p: i32|
                (#[trigger] old(self).actors_view().contains_key(p) && old(self).actors_view()[p].actor_type == ActorType::Player && spec_overlaps(
                    old(self).actors_view()[p].rect,
                    spec_view_rect(old(self).viewport_of()),
                ) && (forall|q: i32| #[trigger]
                    old(self).actors_view().contains_key(q) && old(self).actors_view()[q].actor_type == ActorType::Player ==> q
                        == p)) implies self.actors_view().contains_key(p) && self.viewport_of()
                == (Viewport {
                x: self.actors_view()[p].rect.x,
                y: self.actors_view()[p].rect.y,
                ..old(self).viewport_of()
            }) by {
                assert(ids@.contains(p));
                let mm = choose|mm: int| 0 <= mm < ids@.len() && ids@[mm] == p;
                assert(live@.contains(p));
            }
        }
        Result::Ok(false)
    }

    /// One frame: quit and view-switch inputs short-circuit; otherwise a
    /// simulation step runs under `simulate`'s pass-level laws.  An empty
    /// store always yields a successful, effect-free frame; nothing in
    /// this core ever reports a player death, so a successful simulated
    /// frame returns no action.
    pub fn update(&mut self, input: &InputState, elapsed: u32) -> (r: Result<
        Option<ViewAction>,
        DispatchError,
    >)
        requires
            old(self).wf(),
        ensures
            final(self).wf(),
            final(self).window_of() == old(self).window_of(),
            (input.quit || input.escape) ==> ({
                &&& r matches Result::Ok(a) && a == Option::Some(ViewAction::Quit)
                &&& final(self).actors_view() == old(self).actors_view()
                &&& final(self).score_view() == old(self).score_view()
                &&& final(self).viewport_of() == old(self).viewport_of()
            }),
            (!(input.quit || input.escape) && input.enter) ==> ({
                &&& r matches Result::Ok(a) && a == Option::Some(ViewAction::ChangeView)
                &&& final(self).actors_view() == old(self).actors_view()
                &&& final(self).score_view() == old(self).score_view()
                &&& final(self).viewport_of() == old(self).viewport_of()
            }),
            (!(input.quit || input.escape) && !input.enter) ==> ({
                &&& (r matches Result::Ok(a) ==> a is None)
                &&& ((forall|k: i32| #[trigger]
                    old(self).actors_view().contains_key(k) ==> old(self).actors_view()[k].actor_type != ActorType::Item) ==> r is Ok)
                &&& (old(self).actors_view().dom() == Set::<i32>::empty() ==> ({
                    &&& r matches Result::Ok(a) && a is None
                    &&& final(self).actors_view() == old(self).actors_view()
                    &&& final(self).score_view() == old(self).score_view()
                    &&& final(self).viewport_of() == old(self).viewport_of()
                }))
                &&& forall|k: i32| #[trigger]
                    old(self).actors_view().contains_key(k) && !spec_overlaps(
                        old(self).actors_view()[k].rect,
                        spec_view_rect(old(self).viewport_of()),
                    ) ==> final(self).actors_view().contains_key(k) && final(self).actors_view()[k] == old(self).actors_view()[k]
                &&& forall|k: i32| #[trigger]
                    old(self).actors_view().contains_key(k) ==> final(self).actors_view().contains_key(k) || (spec_overlaps(
                        old(self).actors_view()[k].rect,
                        spec_view_rect(old(self).viewport_of()),
                    ) && spec_collision_gate(old(self).actors_view()[k]))
                &&& forall|k: i32| #[trigger]
                    old(self).actors_view().contains_key(k) && old(self).actors_view()[k].actor_type == ActorType::Block ==> final(self).actors_view().contains_key(k) && final(self).actors_view()[k].rect == old(self).actors_view()[k].rect && final(self).actors_view()[k].state == old(self).actors_view()[k].state
                &&& forall|p: i32|
                    (#[trigger] old(self).actors_view().contains_key(p) && old(self).actors_view()[p].actor_type == ActorType::Player && spec_overlaps(
                        old(self).actors_view()[p].rect,
                        spec_view_rect(old(self).viewport_of()),
                    ) && (forall|q: i32| #[trigger]
                        old(self).actors_view().contains_key(q) && old(self).actors_view()[q].actor_type == ActorType::Player ==> q == p) && r is Ok)
                        ==> final(self).actors_view().contains_key(p) && final(self).viewport_of()
                        == (Viewport {
                        x: final(self).actors_view()[p].rect.x,
                        y: final(self).actors_view()[p].rect.y,
                        ..old(self).viewport_of()
                    })
                &&& forall|k: i32|
                    (#[trigger] old(self).actors_view().contains_key(k) && spec_overlaps(
                        old(self).actors_view()[k].rect,
                        spec_view_rect(old(self).viewport_of()),
                    ) && r is Ok && final(self).actors_view().contains_key(k))
                        ==> spec_entity_stepped(
                        old(self).actors_view()[k],
                        final(self).actors_view()[k],
                        old(self).actors_view(),
                        old(self).viewport_of(),
                        *input,
                    )
                &&& forall|k: i32|
                    (#[trigger] old(self).actors_view().contains_key(k) && r is Ok && !final(self).actors_view().contains_key(k)) ==> spec_entity_removal_requested(
                        old(self).actors_view()[k],
                        old(self).actors_view(),
                        old(self).viewport_of(),
                        *input,
                    )
            }),
    {
        if input.quit || input.escape {
            return Result::Ok(Option::Some(ViewAction::Quit));
        }
        if input.enter {
            return Result::Ok(Option::Some(ViewAction::ChangeView));
        }
        match self.simulate(input, elapsed) {
            Result::Ok(_) => Result::Ok(Option::None),
            Result::Err(e) => Result::Err(e),
        }
    }

    /// The identities and screen rectangles of the entities the render
    /// pass should draw: exactly the stored entities whose rectangle
    /// intersects the viewport, each with its rectangle translated to
    /// viewport-relative coordinates.
    pub fn visible_actors(&self) -> (out: Vec<(i32, SpriteRectangle)>)
        requires
            self.wf(),
        ensures
            forall|j: int|
                0 <= j < out@.len() ==> self.actors_view().contains_key(
                    (#[trigger] out@[j]).0,
                ) && spec_overlaps(
                    self.actors_view()[out@[j].0].rect,
                    spec_view_rect(self.viewport_of()),
                ) && out@[j].1 == (SpriteRectangle {
                    x: (self.actors_view()[out@[j].0].rect.x - self.viewport_of().x) as i32,
                    y: (self.actors_view()[out@[j].0].rect.y - self.viewport_of().y) as i32,
                    ..self.actors_view()[out@[j].0].rect
                }),
            forall|k: i32| #[trigger]
                self.actors_view().contains_key(k) && spec_overlaps(
                    self.actors_view()[k].rect,
                    spec_view_rect(self.viewport_of()),
                ) ==> exists|j: int| 0 <= j < out@.len() && (#[trigger] out@[j]).0 == k,
    {
        let ids = self.actors.ids_vec();
        let mut out: Vec<(i32, SpriteRectangle)> = Vec::new();
        let n = ids.len();
        let mut i: usize = 0;
        while i < n
            invariant
                self.wf(),
                n == ids@.len(),
                ids@ == self.actors.ids_of(),
                i <= n,
                forall|j: int|
                    0 <= j < out@.len() ==> self.actors_view().contains_key(
                        (#[trigger] out@[j]).0,
                    ) && spec_overlaps(
                        self.actors_view()[out@[j].0].rect,
                        spec_view_rect(self.viewport_of()),
                    ) && out@[j].1 == (SpriteRectangle {
                        x: (self.actors_view()[out@[j].0].rect.x - self.viewport_of().x) as i32,
                        y: (self.actors_view()[out@[j].0].rect.y - self.viewport_of().y) as i32,
                        ..self.actors_view()[out@[j].0].rect
                    }),
                forall|m: int|
                    0 <= m < i && self.actors_view().contains_key(#[trigger] ids@[m])
                        && spec_overlaps(
                        self.actors_view()[ids@[m]].rect,
                        spec_view_rect(self.viewport_of()),
                    ) ==> exists|j: int| 0 <= j < out@.len() && (#[trigger] out@[j]).0 == ids@[m],
            decreases n - i,
        {
            let id = ids[i];
            let ghost prev = out@;
            match self.actors.get(id) {
                Option::Some(actor) => {
                    let d = actor.data();
                    match self.viewport.constrain_to_viewport(&d.rect) {
                        Option::Some(rect) => {
                            let (rx, ry) = self.viewport.relative_point((rect.x, rect.y));
                            out.push((id, SpriteRectangle { x: rx, y: ry, w: rect.w, h: rect.h }));
                            proof {
                                assert(out@[prev.len() as int].0 == id);
                            }
                        }
                        Option::None => {}
                    }
                }
                Option::None => {}
            }
            proof {
                assert forall|m: int|
                    0 <= m < i + 1 && self.actors_view().contains_key(#[trigger] ids@[m])
                        && spec_overlaps(
                        self.actors_view()[ids@[m]].rect,
                        spec_view_rect(self.viewport_of()),
                    ) implies exists|j: int|
                    0 <= j < out@.len() && (#[trigger] out@[j]).0 == ids@[m] by {
                    if m < i {
                        let j = choose|j: int| 0 <= j < prev.len() && (#[trigger] prev[j]).0 == ids@[m];
                        assert(out@[j].0 == ids@[m]);
                    } else {
                        assert(out@[out@.len() - 1].0 == ids@[m]);
                    }
                }
            }
            i = i + 1;
        }
        proof {
            assert forall|k: i32| #[trigger]
                self.actors_view().contains_key(k) && spec_overlaps(
                    self.actors_view()[k].rect,
                    spec_view_rect(self.viewport_of()),
                ) implies exists|j: int| 0 <= j < out@.len() && (#[trigger] out@[j]).0 == k by {
                assert(self.actors.ids_of().contains(k));
                let m = choose|m: int| 0 <= m < ids@.len() && ids@[m] == k;
            }
        }
        out
    }
}

/// A processed prefix extended by its next element: used to roll the
/// per-entity frame forward one identity at a time.
proof fn lemma_live_take_full(live: Seq<i32>, k: int, id: i32)
    requires
        0 <= k < live.len(),
        live[k] == id,
    ensures
        live.take(k + 1).contains(id),
        forall|kk: i32| #[trigger]
            live.take(k + 1).contains(kk) ==> live.take(k).contains(kk) || kk == id,
{
    assert(live.take(k + 1)[k] == id);
    assert forall|kk: i32| #[trigger]
        live.take(k + 1).contains(kk) implies live.take(k).contains(kk) || kk == id by {
        let j = choose|j: int| 0 <= j < k + 1 && (#[trigger] live.take(k + 1)[j]) == kk;
        if j < k {
            assert(live.take(k)[j] == kk);
        }
    }
}

} // verus!
