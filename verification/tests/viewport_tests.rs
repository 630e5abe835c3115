use asteroid_engine::geometry::SpriteRectangle;
use asteroid_engine::viewport::{Viewport, Window};

fn viewport() -> Viewport {
    let w = Window { title: String::from("game"), width: 800, height: 600 };
    Viewport::new(&w, (100, 50))
}

#[test]
fn new_takes_window_extents_and_center() {
    let v = viewport();
    assert_eq!((v.x, v.y), (100, 50));
    assert_eq!((v.width, v.height), (800, 600));
}

#[test]
fn update_shifts_the_center() {
    let mut v = viewport();
    v.update((5, -10));
    assert_eq!((v.x, v.y), (105, 40));
    v.update((-205, 0));
    assert_eq!((v.x, v.y), (-100, 40));
}

#[test]
fn set_position_replaces_the_center() {
    let mut v = viewport();
    v.set_position((7, 8));
    assert_eq!((v.x, v.y), (7, 8));
}

#[test]
fn relative_point_subtracts_the_center() {
    let v = viewport();
    assert_eq!(v.relative_point((100, 50)), (0, 0));
    assert_eq!(v.relative_point((130, 20)), (30, -30));
}

#[test]
fn in_viewport_is_the_closed_centered_box() {
    let v = viewport();
    assert!(v.in_viewport((100, 50)));
    assert!(v.in_viewport((-300, -250)));
    assert!(v.in_viewport((500, 350)));
    assert!(!v.in_viewport((501, 50)));
    assert!(!v.in_viewport((100, 351)));
}

#[test]
fn constrain_keeps_intersecting_rectangles() {
    let v = viewport();
    // view rectangle spans (-300, -250) to (500, 350)
    let inside = SpriteRectangle::new(0, 0, 10, 10);
    assert_eq!(v.constrain_to_viewport(&inside), Some(inside));
    let touching = SpriteRectangle::new(500, 0, 10, 10);
    assert_eq!(v.constrain_to_viewport(&touching), None);
    let straddling = SpriteRectangle::new(495, 0, 10, 10);
    assert_eq!(v.constrain_to_viewport(&straddling), Some(straddling));
    let outside = SpriteRectangle::new(900, 900, 10, 10);
    assert_eq!(v.constrain_to_viewport(&outside), None);
}
