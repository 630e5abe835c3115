use asteroid_engine::actor::{ActorType, InputState, STATE_IDLE, STATE_JUMPING};
use asteroid_engine::actor_manager::ActorManager;
use asteroid_engine::frame_timer::{FrameAction, FrameTimer, FRAME_INTERVAL};
use asteroid_engine::actor::Actor;
use asteroid_engine::game_view::{resolve_entity_collisions, GameView, ViewAction};
use asteroid_engine::message::ActorMessage;
use asteroid_engine::score::SCORE_GAME as GAME_COUNTER;
use asteroid_engine::score::{Score, SCORE_GAME, SCORE_LIMIT};
use asteroid_engine::viewport::{Viewport, Window};

fn window() -> Window {
    Window { title: String::from("game"), width: 800, height: 600 }
}

fn view_with(actors: ActorManager) -> GameView {
    let w = window();
    let viewport = Viewport::new(&w, (0, 0));
    GameView::new(actors, viewport, &w)
}

#[test]
fn quit_and_view_switch_short_circuit() {
    let mut view = view_with(ActorManager::new());
    let mut input = InputState::none();
    input.quit = true;
    assert_eq!(view.update(&input, 16), Ok(Some(ViewAction::Quit)));
    let mut input = InputState::none();
    input.escape = true;
    assert_eq!(view.update(&input, 16), Ok(Some(ViewAction::Quit)));
    let mut input = InputState::none();
    input.enter = true;
    assert_eq!(view.update(&input, 16), Ok(Some(ViewAction::ChangeView)));
}

#[test]
fn item_collected_on_player_overlap() {
    // the item overlaps the player; on collision it asks for its own
    // removal and for the score to grow by its fixed value
    let mut actors = ActorManager::new();
    let item_id = actors.add(ActorType::Item, (10, 10), 60).unwrap();
    let player_id = actors.add(ActorType::Player, (0, 0), 60).unwrap();
    let mut view = view_with(actors);
    assert_eq!(view.score_of(SCORE_GAME), Some(0));

    view.update(&InputState::none(), 16).unwrap();

    assert!(view.actor_store().get(item_id).is_none());
    assert!(view.actor_store().get(player_id).is_some());
    assert_eq!(view.score_of(SCORE_GAME), Some(5));
}

#[test]
fn player_falls_and_lands_on_a_block() {
    // the player starts airborne above a block, falls under gravity, and
    // the bottom-side resolution grounds it one unit into the block's top
    let mut actors = ActorManager::new();
    let player_id = actors.add(ActorType::Player, (0, 0), 60).unwrap();
    // player is 96x96; a block right below its feet
    let block_y = 100;
    actors.add(ActorType::Block, (0, block_y), 60).unwrap();
    actors.add(ActorType::Block, (40, block_y), 60).unwrap();
    actors.add(ActorType::Block, (80, block_y), 60).unwrap();
    let mut view = view_with(actors);

    let mut grounded = false;
    for _ in 0..40 {
        view.update(&InputState::none(), 16).unwrap();
        let p = view.actor_store().get(player_id).unwrap();
        if p.state == STATE_IDLE {
            // resting one unit into the ground keeps the grounded state
            assert_eq!(p.rect.y, block_y - 96 + 1);
            assert_eq!(p.vy, 0);
            grounded = true;
            break;
        }
    }
    assert!(grounded);
}

#[test]
fn collision_phase_pushes_the_player_to_touching() {
    // a rightward-overlapping player ends exactly touching the block's
    // left edge, and the block candidate produces no reply
    let mut player = Actor::new(ActorType::Player, 1, (50, 0), 60).unwrap();
    let block = Actor::new(ActorType::Block, 2, (110, 0), 60).unwrap();
    let cands = vec![block.data()];
    let queue = resolve_entity_collisions(&mut player, &cands);
    assert_eq!(player.rect.x, 110 - 96);
    assert_eq!(player.rect.y, 0);
    assert!(queue.is_empty());
    // touching is no longer an overlap: a second pass changes nothing
    let rested = player.rect;
    let queue = resolve_entity_collisions(&mut player, &cands);
    assert_eq!(player.rect, rested);
    assert!(queue.is_empty());
}

#[test]
fn collision_phase_makes_an_item_ask_for_collection() {
    let mut item = Actor::new(ActorType::Item, 7, (10, 10), 60).unwrap();
    let player = Actor::new(ActorType::Player, 1, (0, 0), 60).unwrap();
    let cands = vec![player.data()];
    let queue = resolve_entity_collisions(&mut item, &cands);
    assert_eq!(
        queue,
        vec![
            ActorMessage::UpdateScore(GAME_COUNTER, 5),
            ActorMessage::RemoveActor(7),
        ]
    );
}

#[test]
fn player_walking_off_a_ledge_falls_again() {
    // land on a platform, slide right past its edge: with support lost
    // the player leaves the grounded state and falls
    let mut actors = ActorManager::new();
    let player_id = actors.add(ActorType::Player, (0, 0), 60).unwrap();
    let block_y = 100;
    actors.add(ActorType::Block, (0, block_y), 60).unwrap();
    actors.add(ActorType::Block, (40, block_y), 60).unwrap();
    actors.add(ActorType::Block, (80, block_y), 60).unwrap();
    let mut view = view_with(actors);

    let mut grounded = false;
    for _ in 0..40 {
        view.update(&InputState::none(), 16).unwrap();
        if view.actor_store().get(player_id).unwrap().state == STATE_IDLE {
            grounded = true;
            break;
        }
    }
    assert!(grounded);

    let mut input = InputState::none();
    input.right = true;
    let mut airborne = false;
    for _ in 0..40 {
        view.update(&input, 16).unwrap();
        let p = view.actor_store().get(player_id).unwrap();
        if p.state == STATE_JUMPING {
            // past the platform's right edge, support is gone
            assert!(p.rect.x + 96 > 120);
            airborne = true;
            break;
        }
    }
    assert!(airborne);
    // and gravity takes over again
    view.update(&InputState::none(), 16).unwrap();
    let p = view.actor_store().get(player_id).unwrap();
    assert!(p.rect.y > block_y - 96 + 1);
}

#[test]
fn snapshot_bounding_box_tracks_the_rectangle() {
    let mut actors = ActorManager::new();
    let player_id = actors.add(ActorType::Player, (10, 20), 60).unwrap();
    let mut view = view_with(actors);
    // the entity moves while airborne; its snapshot's box must follow
    view.update(&InputState::none(), 16).unwrap();
    let p = view.actor_store().get(player_id).unwrap();
    let d = p.data();
    assert_eq!(
        d.bounding_box,
        Some(asteroid_engine::collision::BoundingBox::Rectangle(p.rect))
    );
    assert!(p.rect.y > 20);
}

#[test]
fn viewport_follows_the_player() {
    let mut actors = ActorManager::new();
    let player_id = actors.add(ActorType::Player, (50, 60), 60).unwrap();
    let mut view = view_with(actors);
    view.update(&InputState::none(), 16).unwrap();
    let p = view.actor_store().get(player_id).unwrap().rect;
    let vp = view.viewport();
    assert_eq!((vp.x, vp.y), (p.x, p.y));
}

#[test]
fn player_accelerates_toward_held_direction() {
    let mut actors = ActorManager::new();
    let player_id = actors.add(ActorType::Player, (0, 0), 60).unwrap();
    let mut view = view_with(actors);
    let mut input = InputState::none();
    input.right = true;
    view.update(&input, 16).unwrap();
    let p = view.actor_store().get(player_id).unwrap();
    assert_eq!(p.vx, 2);
    assert_eq!(p.rect.x, 2);
    view.update(&input, 16).unwrap();
    let p = view.actor_store().get(player_id).unwrap();
    assert_eq!(p.vx, 4);
    assert_eq!(p.rect.x, 6);
}

#[test]
fn player_jumps_only_from_the_ground() {
    let mut actors = ActorManager::new();
    let player_id = actors.add(ActorType::Player, (0, 100), 60).unwrap();
    let mut view = view_with(actors);
    // airborne at construction: jumping input changes nothing
    let mut input = InputState::none();
    input.space = true;
    view.update(&input, 16).unwrap();
    assert_eq!(view.actor_store().get(player_id).unwrap().state, STATE_JUMPING);
}

#[test]
fn off_viewport_entities_are_frozen() {
    let mut actors = ActorManager::new();
    // far outside the 800x600 viewport centered on the origin
    let far_id = actors.add(ActorType::Enemy, (5000, 5000), 60).unwrap();
    let mut view = view_with(actors);
    let before = view.actor_store().get(far_id).unwrap().rect;
    view.update(&InputState::none(), 16).unwrap();
    let after = view.actor_store().get(far_id).unwrap().rect;
    assert_eq!(before, after);
}

#[test]
fn frame_timer_paces_to_the_interval() {
    let mut t = FrameTimer::new(1000, false);
    assert_eq!(t.on_frame(1005), FrameAction::Delay(FRAME_INTERVAL - 5));
    // a delay changes nothing
    assert_eq!(t.before, 1000);
    assert_eq!(t.on_frame(1020), FrameAction::Continue(20));
    assert_eq!(t.before, 1020);
    assert_eq!(t.fps, 1);
    // more than a second later the tally resets
    assert_eq!(t.on_frame(2200), FrameAction::Continue(1180));
    assert_eq!(t.fps, 0);
    assert_eq!(t.last_second, 2200);
}

#[test]
fn score_counters_are_created_on_first_use() {
    let mut s = Score::new();
    assert_eq!(s.score(3), None);
    s.increment_score(3, 7);
    assert_eq!(s.score(3), Some(7));
    s.increment_score(3, -2);
    assert_eq!(s.score(3), Some(5));
    s.add_score(3);
    assert_eq!(s.score(3), Some(0));
}

#[test]
fn score_saturates_at_its_limit() {
    let mut s = Score::new();
    s.increment_score(0, SCORE_LIMIT);
    s.increment_score(0, SCORE_LIMIT);
    assert_eq!(s.score(0), Some(SCORE_LIMIT));
    let mut s = Score::new();
    s.increment_score(0, -SCORE_LIMIT);
    s.increment_score(0, -SCORE_LIMIT);
    assert_eq!(s.score(0), Some(-SCORE_LIMIT));
}
