use rope_sim::fixed::{ONE, WORLD_LIMIT};
use rope_sim::pointer::adjust_coords;
use rope_sim::vec2::Vec2;

#[test]
fn the_centre_of_the_window_is_the_origin() {
    let size = Vec2::new(800 * ONE, 600 * ONE);
    assert_eq!(adjust_coords(size, Vec2::new(400 * ONE, 300 * ONE)), Vec2::new(0, 0));
}

#[test]
fn the_vertical_axis_is_turned_upward() {
    let size = Vec2::new(800 * ONE, 600 * ONE);
    assert_eq!(adjust_coords(size, Vec2::new(0, 0)), Vec2::new(-400 * ONE, 300 * ONE));
    assert_eq!(adjust_coords(size, Vec2::new(800 * ONE, 600 * ONE)), Vec2::new(400 * ONE, -300 * ONE));
    assert_eq!(adjust_coords(size, Vec2::new(500 * ONE, 100 * ONE)), Vec2::new(100 * ONE, 200 * ONE));
}

#[test]
fn a_pointer_far_outside_is_brought_to_the_border_of_the_world() {
    let size = Vec2::new(800 * ONE, 600 * ONE);
    assert_eq!(adjust_coords(size, Vec2::new(i64::MAX, i64::MAX)), Vec2::new(WORLD_LIMIT, -WORLD_LIMIT));
    assert_eq!(adjust_coords(size, Vec2::new(i64::MIN, i64::MIN)), Vec2::new(-WORLD_LIMIT, WORLD_LIMIT));
}

#[test]
fn half_of_an_odd_size_is_rounded_toward_zero() {
    assert_eq!(adjust_coords(Vec2::new(7, 5), Vec2::new(0, 0)), Vec2::new(-3, 2));
    assert_eq!(adjust_coords(Vec2::new(-7, -5), Vec2::new(0, 0)), Vec2::new(3, -2));
}
