use asteroid_engine::actor::{ActorData, ActorType};
use asteroid_engine::collision::BoundingBox;
use asteroid_engine::geometry::SpriteRectangle;
use asteroid_engine::quadtree::Quadtree;

fn snap(id: i32, x: i32, y: i32, w: u32, h: u32) -> ActorData {
    ActorData {
        id,
        state: 0,
        damage: 0,
        checks_collision: true,
        rect: SpriteRectangle::new(x, y, w, h),
        bounding_box: Some(BoundingBox::Rectangle(SpriteRectangle::new(x, y, w, h))),
        actor_type: ActorType::Block,
        collision_filter: 15,
    }
}

fn ids_of(v: &[ActorData]) -> Vec<i32> {
    let mut out: Vec<i32> = v.iter().map(|d| d.id).collect();
    out.sort();
    out.dedup();
    out
}

#[test]
fn empty_tree_returns_nothing() {
    let tree = Quadtree::new(SpriteRectangle::new(0, 0, 256, 256));
    let out = tree.retrieve(&SpriteRectangle::new(0, 0, 256, 256));
    assert_eq!(out.len(), 0);
}

#[test]
fn retrieve_never_omits_an_overlap_after_split() {
    // low thresholds force several splits
    let mut tree =
        Quadtree::with_thresholds(SpriteRectangle::new(0, 0, 256, 256), 2, 4);
    let snaps = [
        snap(1, 10, 10, 8, 8),
        snap(2, 200, 10, 8, 8),
        snap(3, 10, 200, 8, 8),
        snap(4, 200, 200, 8, 8),
        snap(5, 120, 120, 20, 20), // straddles all four quadrants
        snap(6, 60, 60, 8, 8),
        snap(7, 61, 61, 8, 8),
        snap(8, 62, 62, 8, 8),
        snap(9, 63, 63, 8, 8),
    ];
    for s in snaps.iter() {
        tree.insert(*s);
    }
    // a query overlapping everything returns every snapshot
    let all = tree.retrieve(&SpriteRectangle::new(0, 0, 256, 256));
    assert_eq!(ids_of(&all), vec![1, 2, 3, 4, 5, 6, 7, 8, 9]);
    // per-snapshot queries never miss the snapshot itself
    for s in snaps.iter() {
        let out = tree.retrieve(&s.rect);
        assert!(ids_of(&out).contains(&s.id));
    }
    // the straddling snapshot is found from every corner
    for q in [
        SpriteRectangle::new(100, 100, 25, 25),
        SpriteRectangle::new(130, 100, 25, 25),
        SpriteRectangle::new(100, 130, 25, 25),
        SpriteRectangle::new(130, 130, 25, 25),
    ] {
        assert!(ids_of(&tree.retrieve(&q)).contains(&5));
    }
}

#[test]
fn snapshot_outside_the_region_is_still_found() {
    let mut tree = Quadtree::with_thresholds(SpriteRectangle::new(0, 0, 64, 64), 1, 4);
    // force a split with in-region snapshots first
    tree.insert(snap(1, 5, 5, 4, 4));
    tree.insert(snap(2, 40, 40, 4, 4));
    // this one lies beyond the indexed region
    tree.insert(snap(3, 500, 500, 10, 10));
    let out = tree.retrieve(&SpriteRectangle::new(495, 495, 30, 30));
    assert!(ids_of(&out).contains(&3));
}

#[test]
fn retrieve_is_a_broad_phase_superset() {
    let mut tree = Quadtree::with_thresholds(SpriteRectangle::new(0, 0, 128, 128), 2, 4);
    for s in [
        snap(1, 0, 0, 10, 10),
        snap(2, 30, 0, 10, 10),
        snap(3, 90, 90, 10, 10),
        snap(4, 0, 90, 10, 10),
    ] {
        tree.insert(s);
    }
    let q = SpriteRectangle::new(0, 0, 12, 12);
    let out = tree.retrieve(&q);
    // the true overlap is definitely there; extras are allowed and must be
    // filtered by an exact test, which is what callers do
    assert!(ids_of(&out).contains(&1));
    for d in out.iter() {
        if d.rect.overlaps(&q) {
            assert_eq!(d.id, 1);
        }
    }
}
