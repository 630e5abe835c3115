//! The message protocol: the only channel through which one entity's
//! update or collision handler may affect another entity, the viewport or
//! the score.  Handlers return lists of messages; the frame orchestrator's
//! dispatcher interprets them in first-in-first-out order against the
//! store, the viewport and the ledger.

use vstd::prelude::*;
use crate::actor::ActorType;

verus! {

/// An action forwarded from one entity to another.
#[derive(Clone, Copy, PartialEq, Eq, Structural, Debug)]
pub enum ActorAction {
    /// A collision happened: the other entity's type, and the collision
    /// side masked against the receiving entity's filter (`SIDE_*` bits).
    Collision(ActorType, u8),
    /// Move the receiving entity by this delta.
    ChangePosition(i32, i32),
}

/// A side-effect request returned by an entity's handler.
#[derive(Clone, Copy, PartialEq, Eq, Structural, Debug)]
pub enum ActorMessage {
    /// Create an entity of the given kind at the given position.
    AddActor(ActorType, i32, i32),
    /// Evict the entity with this identity from the store.
    RemoveActor(i32),
    /// Recenter the viewport on this point.
    SetViewport(i32, i32),
    /// Add the amount to the named score counter.
    UpdateScore(u32, i32),
    /// Forward an action from entity `send_id` to entity `recv_id`.
    ActorAction { send_id: i32, recv_id: i32, action: ActorAction },
    /// The player died: reported upward, never handled inside the core.
    PlayerDied,
    /// Nothing to do; every message chain ends here.
    NoOp,
}

/// How much dispatch effort a message may take: one for itself, and for a
/// forwarded action also the effort of its reply, which is at most a pair
/// of simple requests.  The dispatcher provably drains any queue whose
/// total effort is within its cap.
pub open spec fn spec_message_work(m: ActorMessage) -> int {
    match m {
        ActorMessage::ActorAction { .. } => 5,
        _ => 1,
    }
}

/// Total dispatch effort of a queue.
pub open spec fn spec_messages_work(s: Seq<ActorMessage>) -> int
    decreases s.len(),
{
    if s.len() == 0 {
        0
    } else {
        spec_message_work(s[0]) + spec_messages_work(s.drop_first())
    }
}

/// Whether dispatching `m` may change the store's entry for an entity
/// already stored under `k`: an eviction of `k`, or an action forwarded
/// to `k` (whose reply can only concern `k` itself).
pub open spec fn spec_message_touches(m: ActorMessage, k: i32) -> bool {
    match m {
        ActorMessage::RemoveActor(id) => id == k,
        ActorMessage::ActorAction { recv_id, .. } => recv_id == k,
        _ => false,
    }
}

/// Whether any message of a queue may change the entry stored under `k`.
pub open spec fn spec_messages_touch(s: Seq<ActorMessage>, k: i32) -> bool
    decreases s.len(),
{
    if s.len() == 0 {
        false
    } else {
        spec_message_touches(s[0], k) || spec_messages_touch(s.drop_first(), k)
    }
}

/// Whether dispatching `m` may move the viewport.
pub open spec fn spec_message_moves_viewport(m: ActorMessage) -> bool {
    match m {
        ActorMessage::SetViewport(..) => true,
        ActorMessage::ActorAction { .. } => true,
        _ => false,
    }
}

/// Whether any message of a queue may move the viewport.
pub open spec fn spec_messages_move_viewport(s: Seq<ActorMessage>) -> bool
    decreases s.len(),
{
    if s.len() == 0 {
        false
    } else {
        spec_message_moves_viewport(s[0]) || spec_messages_move_viewport(s.drop_first())
    }
}

/// Whether dispatching `m` may report the player's death.
pub open spec fn spec_message_has_death(m: ActorMessage) -> bool {
    match m {
        ActorMessage::PlayerDied => true,
        ActorMessage::ActorAction { .. } => true,
        _ => false,
    }
}

/// Whether any message of a queue may report the player's death.
pub open spec fn spec_messages_have_death(s: Seq<ActorMessage>) -> bool
    decreases s.len(),
{
    if s.len() == 0 {
        false
    } else {
        spec_message_has_death(s[0]) || spec_messages_have_death(s.drop_first())
    }
}

/// A queue of plain requests: evictions, score changes and no-ops only —
/// nothing that forwards to an entity or creates one.  Dispatching such a
/// queue can evict entities but never modifies or adds one.
pub open spec fn spec_simple_requests(s: Seq<ActorMessage>) -> bool {
    forall|j: int|
        0 <= j < s.len() ==> ((#[trigger] s[j]) matches ActorMessage::RemoveActor(_) || s[j]
            matches ActorMessage::UpdateScore(..) || s[j] is NoOp)
}

/// Every message takes at least one unit of dispatch effort, so a queue's
/// effort bounds its length.
pub proof fn lemma_messages_work_at_least_len(s: Seq<ActorMessage>)
    ensures
        spec_messages_work(s) >= s.len(),
    decreases s.len(),
{
    if s.len() > 0 {
        lemma_messages_work_at_least_len(s.drop_first());
    }
}

/// Queue effort, touch, viewport motion and death reports distribute over
/// concatenation.
pub proof fn lemma_messages_split(a: Seq<ActorMessage>, b: Seq<ActorMessage>)
    ensures
        spec_messages_work(a + b) == spec_messages_work(a) + spec_messages_work(b),
        forall|k: i32|
            spec_messages_touch(a + b, k) <==> (spec_messages_touch(a, k)
                || spec_messages_touch(b, k)),
        spec_messages_move_viewport(a + b) <==> (spec_messages_move_viewport(a)
            || spec_messages_move_viewport(b)),
        spec_messages_have_death(a + b) <==> (spec_messages_have_death(a)
            || spec_messages_have_death(b)),
        spec_simple_requests(a + b) <==> (spec_simple_requests(a) && spec_simple_requests(b)),
    decreases a.len(),
{
    if a.len() == 0 {
        assert(a + b =~= b);
        assert(spec_messages_work(a) == 0);
        assert(forall|k: i32| !spec_messages_touch(a, k));
        assert(!spec_messages_move_viewport(a));
        assert(!spec_messages_have_death(a));
        assert(spec_simple_requests(a));
    } else {
        lemma_messages_split(a.drop_first(), b);
        assert((a + b).drop_first() =~= a.drop_first() + b);
        assert((a + b)[0] == a[0]);
        assert(spec_messages_work(a + b) == spec_message_work(a[0]) + spec_messages_work(
            a.drop_first() + b,
        ));
        assert(spec_messages_work(a) == spec_message_work(a[0]) + spec_messages_work(
            a.drop_first(),
        ));
        assert forall|j: int| 0 <= j < a.len() implies (a + b)[j] == a[j] by {}
        assert forall|j: int| 0 <= j < b.len() implies (a + b)[j + a.len()] == b[j] by {}
        assert(spec_simple_requests(a + b) <==> (spec_simple_requests(a) && spec_simple_requests(
            b,
        ))) by {
            if spec_simple_requests(a + b) {
                assert forall|j: int|
                    0 <= j < a.len() implies ((#[trigger] a[j]) matches ActorMessage::RemoveActor(
                    _,
                ) || a[j] matches ActorMessage::UpdateScore(..) || a[j] is NoOp) by {
                    assert((a + b)[j] == a[j]);
                }
                assert forall|j: int|
                    0 <= j < b.len() implies ((#[trigger] b[j]) matches ActorMessage::RemoveActor(
                    _,
                ) || b[j] matches ActorMessage::UpdateScore(..) || b[j] is NoOp) by {
                    assert((a + b)[j + a.len()] == b[j]);
                }
            }
            if spec_simple_requests(a) && spec_simple_requests(b) {
                assert forall|j: int|
                    0 <= j < (a + b).len() implies ((#[trigger] (a + b)[j])
                        matches ActorMessage::RemoveActor(_) || (a + b)[j]
                        matches ActorMessage::UpdateScore(..) || (a + b)[j] is NoOp) by {
                    if j < a.len() {
                        assert((a + b)[j] == a[j]);
                    } else {
                        assert((a + b)[j] == b[j - a.len()]);
                    }
                }
            }
        }
        assert forall|k: i32|
            spec_messages_touch(a + b, k) <==> (spec_messages_touch(a, k) || spec_messages_touch(
                b,
                k,
            )) by {
            assert(spec_messages_touch(a + b, k) == (spec_message_touches((a + b)[0], k)
                || spec_messages_touch((a + b).drop_first(), k)));
            assert(spec_messages_touch(a, k) == (spec_message_touches(a[0], k)
                || spec_messages_touch(a.drop_first(), k)));
        }
    }
}

} // verus!
