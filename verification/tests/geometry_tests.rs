use asteroid_engine::collision::{resolve_collision, side_mask, BoundingBox, CollisionSide};
use asteroid_engine::collision::{SIDE_ALL, SIDE_BOTTOM, SIDE_LEFT, SIDE_RIGHT, SIDE_TOP};
use asteroid_engine::geometry::{rect_contains_rect, SpriteRectangle};

fn rect(x: i32, y: i32, w: u32, h: u32) -> SpriteRectangle {
    SpriteRectangle::new(x, y, w, h)
}

#[test]
fn overlaps_is_symmetric_on_samples() {
    let cases = [
        (rect(0, 0, 10, 10), rect(5, 5, 10, 10)),
        (rect(0, 0, 10, 10), rect(10, 0, 10, 10)),
        (rect(-3, -3, 2, 2), rect(0, 0, 4, 4)),
        (rect(0, 0, 100, 1), rect(50, 0, 1, 100)),
    ];
    for (a, b) in cases.iter() {
        assert_eq!(a.overlaps(b), b.overlaps(a));
    }
}

#[test]
fn touching_edges_do_not_overlap() {
    let a = rect(0, 0, 10, 10);
    let b = rect(10, 0, 10, 10);
    assert!(!a.overlaps(&b));
    let c = rect(0, 10, 10, 10);
    assert!(!a.overlaps(&c));
    let d = rect(9, 9, 10, 10);
    assert!(a.overlaps(&d));
}

#[test]
fn contains_is_reflexive_and_monotone() {
    let a = rect(0, 0, 10, 10);
    assert!(a.contains_rect(&a));
    let inner = rect(2, 3, 4, 5);
    assert!(a.contains_rect(&inner));
    assert!(rect_contains_rect(&a, &inner));
    let outside = rect(8, 8, 4, 4);
    assert!(!a.contains_rect(&outside));
}

#[test]
fn classify_defined_iff_overlapping() {
    let a = rect(0, 0, 10, 10);
    let apart = rect(20, 0, 10, 10);
    assert!(a.collides_with(&apart).is_none());
    let touching = rect(10, 0, 10, 10);
    assert!(a.collides_with(&touching).is_none());
    let over = rect(5, 0, 10, 10);
    assert!(a.collides_with(&over).is_some());
}

#[test]
fn classify_picks_smallest_penetration() {
    // moving rectangle reaches 3 units into the other's left edge
    let moving = rect(5, 0, 10, 10);
    let other = rect(12, 0, 10, 10);
    assert_eq!(moving.collides_with(&other), Some(CollisionSide::Right));
    // moving rectangle rests 2 units into the other's top edge
    let moving = rect(0, 4, 10, 10);
    let other = rect(0, 12, 10, 10);
    assert_eq!(moving.collides_with(&other), Some(CollisionSide::Bottom));
    // coming from the right
    let moving = rect(8, 0, 10, 10);
    let other = rect(0, 0, 10, 10);
    assert_eq!(moving.collides_with(&other), Some(CollisionSide::Left));
    // coming from below
    let moving = rect(0, 8, 10, 10);
    let other = rect(0, 0, 10, 10);
    assert_eq!(moving.collides_with(&other), Some(CollisionSide::Top));
}

#[test]
fn resolution_moves_right_collision_to_touching() {
    // the scenario: a 10x10 body at (0,0) moving right at 5 units per step
    // meets a static 10x10 block at x = 12
    let mut moving = rect(0, 0, 10, 10);
    moving.x += 5;
    let block = rect(12, 0, 10, 10);
    let side = moving.collides_with(&block);
    assert_eq!(side, Some(CollisionSide::Right));
    resolve_collision(&mut moving, &block, CollisionSide::Right);
    assert_eq!(moving.x, 2);
    assert_eq!(moving.y, 0);
    assert!(moving.collides_with(&block).is_none());
}

#[test]
fn resolution_is_exact_on_every_side() {
    let other = rect(10, 10, 10, 10);

    let mut m = rect(5, 10, 10, 10);
    resolve_collision(&mut m, &other, CollisionSide::Right);
    assert_eq!((m.x, m.y), (0, 10));

    let mut m = rect(15, 10, 10, 10);
    resolve_collision(&mut m, &other, CollisionSide::Left);
    assert_eq!((m.x, m.y), (20, 10));

    let mut m = rect(10, 5, 10, 10);
    resolve_collision(&mut m, &other, CollisionSide::Bottom);
    assert_eq!((m.x, m.y), (10, 0));

    let mut m = rect(10, 15, 10, 10);
    resolve_collision(&mut m, &other, CollisionSide::Top);
    assert_eq!((m.x, m.y), (10, 20));
}

#[test]
fn side_masks_are_distinct_bits() {
    assert_eq!(side_mask(CollisionSide::Top), SIDE_TOP);
    assert_eq!(side_mask(CollisionSide::Bottom), SIDE_BOTTOM);
    assert_eq!(side_mask(CollisionSide::Left), SIDE_LEFT);
    assert_eq!(side_mask(CollisionSide::Right), SIDE_RIGHT);
    assert_eq!(SIDE_TOP | SIDE_BOTTOM | SIDE_LEFT | SIDE_RIGHT, SIDE_ALL);
}

#[test]
fn bounding_box_follows_position_changes() {
    let mut bb = BoundingBox::Rectangle(rect(0, 0, 8, 8));
    bb.change_pos(&rect(30, 40, 99, 99));
    assert_eq!(bb.rect(), rect(30, 40, 8, 8));
    let other = BoundingBox::Rectangle(rect(33, 40, 8, 8));
    assert!(bb.collides_with(&other).is_some());
}
