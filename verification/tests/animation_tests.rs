use asteroid_engine::collision::BoundingBox;
use asteroid_engine::geometry::SpriteRectangle;
use asteroid_engine::sprite::{AnimatedSprite, Animation, AnimationData, AnimationManager, Sprite};

fn bb(x: i32, y: i32) -> BoundingBox {
    BoundingBox::Rectangle(SpriteRectangle::new(x, y, 16, 16))
}

fn frames() -> Vec<Sprite> {
    let sheet = Sprite::new(64, 16).unwrap();
    let anim = Animation::new(
        AnimationData { width: 16, height: 16, sprites_in_row: 4, path: "sheet.png" },
        sheet,
    )
    .unwrap();
    anim.range(0, 4)
}

#[test]
fn sprite_construction_rejects_degenerate_extents() {
    assert!(Sprite::new(0, 16).is_none());
    assert!(Sprite::new(16, 0).is_none());
    assert!(Sprite::new(16, 16).is_some());
}

#[test]
fn sprite_region_requires_containment() {
    let sheet = Sprite::new(64, 64).unwrap();
    assert!(sheet.region(&SpriteRectangle::new(0, 0, 32, 32)).is_some());
    assert!(sheet.region(&SpriteRectangle::new(48, 48, 32, 32)).is_none());
    let sub = sheet.region(&SpriteRectangle::new(16, 16, 16, 16)).unwrap();
    assert_eq!(sub.size(), (16, 16));
    assert_eq!(sub.src, SpriteRectangle::new(16, 16, 16, 16));
}

#[test]
fn animation_range_cuts_rows_in_order() {
    let sheet = Sprite::new(64, 32).unwrap();
    let anim = Animation::new(
        AnimationData { width: 16, height: 16, sprites_in_row: 4, path: "sheet.png" },
        sheet,
    )
    .unwrap();
    let cut = anim.range(0, 8);
    assert_eq!(cut.len(), 8);
    assert_eq!(cut[0].src, SpriteRectangle::new(0, 0, 16, 16));
    assert_eq!(cut[3].src, SpriteRectangle::new(48, 0, 16, 16));
    assert_eq!(cut[4].src, SpriteRectangle::new(0, 16, 16, 16));
    assert_eq!(cut[7].src, SpriteRectangle::new(48, 16, 16, 16));
    // frames beyond the sheet are skipped, not invented
    let over = anim.range(0, 12);
    assert_eq!(over.len(), 8);
}

#[test]
fn animation_rejects_degenerate_geometry() {
    let sheet = Sprite::new(64, 32).unwrap();
    assert!(Animation::new(
        AnimationData { width: 0, height: 16, sprites_in_row: 4, path: "sheet.png" },
        sheet,
    )
    .is_none());
    assert!(Animation::new(
        AnimationData { width: 16, height: 16, sprites_in_row: 0, path: "sheet.png" },
        sheet,
    )
    .is_none());
}

#[test]
fn with_fps_rejects_zero_rate_and_empty_frames() {
    assert!(AnimatedSprite::with_fps(frames(), 0).is_none());
    assert!(AnimatedSprite::with_fps(frames(), 1001).is_none());
    assert!(AnimatedSprite::with_fps(Vec::new(), 60).is_none());
    assert!(AnimatedSprite::with_fps(frames(), 60).is_some());
}

#[test]
fn frame_cursor_advances_with_time() {
    // 10 frames per second: one frame every 100 ms
    let mut a = AnimatedSprite::with_fps(frames(), 10).unwrap();
    assert_eq!(a.current_frame(), 0);
    a.add_time(250);
    assert_eq!(a.current_frame(), 2);
    a.add_time(250);
    // 500 ms / 100 ms = 5, wrapped over 4 frames
    assert_eq!(a.current_frame(), 1);
}

#[test]
fn manager_rejects_degenerate_rate() {
    assert!(AnimationManager::new(0).is_none());
    assert!(AnimationManager::new(1001).is_none());
    assert!(AnimationManager::new(60).is_some());
}

#[test]
fn add_rejects_empty_frame_lists() {
    let mut m = AnimationManager::new(60).unwrap();
    assert!(!m.add(0, Vec::new(), bb(0, 0)));
    assert!(m.add(0, frames(), bb(0, 0)));
}

#[test]
fn hot_slot_and_map_partition_the_states() {
    let mut m = AnimationManager::new(10).unwrap();
    assert!(m.add(0, frames(), bb(0, 0)));
    assert!(m.add(1, frames(), bb(100, 100)));

    // both states stay reachable through any switching sequence
    for s in [0u32, 1, 1, 0, 1, 0, 0, 1] {
        m.set_active(s);
        assert_eq!(m.bbox(0).copied(), Some(bb(0, 0)));
        assert_eq!(m.bbox(1).copied(), Some(bb(100, 100)));
    }

    // an unregistered state empties the hot slot but loses nothing
    m.set_active(7);
    assert!(m.anim(7).is_none());
    assert!(m.bbox(7).is_none());
    assert_eq!(m.bbox(0).copied(), Some(bb(0, 0)));
    assert_eq!(m.bbox(1).copied(), Some(bb(100, 100)));
    // reading without disturbing the hot slot sees the same partition
    m.set_active(0);
    assert_eq!(m.peek_bbox(1).copied(), Some(bb(100, 100)));
    assert_eq!(m.peek_bbox(0).copied(), Some(bb(0, 0)));
    assert!(m.peek_bbox(9).is_none());
}

#[test]
fn mutating_through_the_cache_updates_exactly_one_state() {
    let mut m = AnimationManager::new(10).unwrap();
    assert!(m.add(0, frames(), bb(0, 0)));
    assert!(m.add(1, frames(), bb(100, 100)));

    m.add_time(0, 250);
    assert_eq!(m.anim(0).unwrap().current_frame(), 2);
    assert_eq!(m.anim(1).unwrap().current_frame(), 0);

    m.change_pos(1, &SpriteRectangle::new(7, 8, 99, 99));
    assert_eq!(m.bbox(1).unwrap().rect(), SpriteRectangle::new(7, 8, 16, 16));
    assert_eq!(m.bbox(0).unwrap().rect(), SpriteRectangle::new(0, 0, 16, 16));
}

#[test]
fn cache_collision_check_uses_the_state_box() {
    let mut m = AnimationManager::new(10).unwrap();
    assert!(m.add(0, frames(), bb(0, 0)));
    let overlapping = Some(BoundingBox::Rectangle(SpriteRectangle::new(8, 0, 16, 16)));
    assert!(m.collides_with(0, &overlapping).is_some());
    let apart = Some(BoundingBox::Rectangle(SpriteRectangle::new(40, 0, 16, 16)));
    assert!(m.collides_with(0, &apart).is_none());
    assert!(m.collides_with(0, &None).is_none());
    assert!(m.collides_with(9, &overlapping).is_none());
}
