use rope_sim::config::Config;
use rope_sim::enemy::{seek_all, Enemy};
use rope_sim::fixed::{ONE, WORLD_LIMIT};
use rope_sim::vec2::Vec2;

fn enemy(x: i64, y: i64, radius: i64) -> Enemy {
    Enemy::with_radius(Vec2::new(x, y), radius).unwrap()
}

#[test]
fn an_enemy_starts_at_rest() {
    let e = enemy(3 * ONE, -4 * ONE, 7 * ONE);
    assert_eq!(e.position(), Vec2::new(3 * ONE, -4 * ONE));
    assert_eq!(e.position_prev(), Vec2::new(3 * ONE, -4 * ONE));
    assert_eq!(e.radius(), 7 * ONE);
}

#[test]
fn a_radius_out_of_range_makes_no_enemy() {
    assert!(Enemy::with_radius(Vec2::new(0, 0), -1).is_none());
    assert!(Enemy::with_radius(Vec2::new(0, 0), WORLD_LIMIT + 1).is_none());
    assert!(Enemy::with_radius(Vec2::new(0, 0), 0).is_some());
    assert!(Enemy::with_radius(Vec2::new(0, 0), WORLD_LIMIT).is_some());
}

#[test]
fn an_enemy_outside_the_world_is_moved_into_it() {
    let e = enemy(i64::MAX, i64::MIN, ONE);
    assert_eq!(e.position(), Vec2::new(WORLD_LIMIT, -WORLD_LIMIT));
}

#[test]
fn random_radii_stay_in_their_range_and_vary() {
    let config = Config::default();
    let mut radii = Vec::new();
    for _ in 0..200 {
        let e = Enemy::new(Vec2::new(ONE, 2 * ONE), &config);
        assert_eq!(e.position(), Vec2::new(ONE, 2 * ONE));
        assert_eq!(e.position_prev(), Vec2::new(ONE, 2 * ONE));
        assert!(config.enemy_radius_min <= e.radius() && e.radius() < config.enemy_radius_max);
        radii.push(e.radius());
    }
    assert!(radii.iter().any(|r| *r != config.enemy_radius_min));
    assert!(radii.iter().any(|r| *r != config.enemy_radius_max - 1));
    assert!(radii.iter().any(|r| *r != radii[0]));
}

#[test]
fn a_seek_step_pulls_toward_the_target() {
    let mut e = enemy(100 * ONE, 50 * ONE, 5 * ONE);
    e.seek_step(Vec2::new(0, 0), 10_000, 1_008_000);
    assert_eq!(e.position(), Vec2::new(99_991_056, 49_995_528));
    assert_eq!(e.position_prev(), Vec2::new(100 * ONE, 50 * ONE));
    e.seek_step(Vec2::new(0, 0), 10_000, 1_008_000);
    assert_eq!(e.position(), Vec2::new(99_973_239, 49_986_620));
    assert_eq!(e.position_prev(), Vec2::new(99_991_056, 49_995_528));
    assert_eq!(e.radius(), 5 * ONE);
}

#[test]
fn a_tick_is_as_many_seek_steps_as_substeps() {
    let config = Config::default();
    let mut by_tick = enemy(100 * ONE, 50 * ONE, 5 * ONE);
    let mut by_steps = enemy(100 * ONE, 50 * ONE, 5 * ONE);
    by_tick.update(Vec2::new(0, 0), &config);
    for _ in 0..5 {
        by_steps.seek_step(Vec2::new(0, 0), config.seek_acceleration, config.damping);
    }
    assert_eq!(by_tick.position(), Vec2::new(99_867_255, 49_933_630));
    assert_eq!(by_tick.position_prev(), Vec2::new(99_911_269, 49_955_636));
    assert_eq!(by_tick.position(), by_steps.position());
    assert_eq!(by_tick.position_prev(), by_steps.position_prev());
}

#[test]
fn an_enemy_on_its_target_is_not_pulled() {
    let mut e = enemy(10 * ONE, 10 * ONE, 5 * ONE);
    e.seek_step(Vec2::new(10 * ONE, 10 * ONE), 10_000, 1_008_000);
    assert_eq!(e.position(), Vec2::new(10 * ONE, 10 * ONE));
    e.update(Vec2::new(10 * ONE, 10 * ONE), &Config::default());
    assert_eq!(e.position(), Vec2::new(10 * ONE, 10 * ONE));
    assert_eq!(e.position_prev(), Vec2::new(10 * ONE, 10 * ONE));
}

#[test]
fn a_moving_enemy_coasts_with_damping() {
    let mut e = enemy(0, 0, 5 * ONE);
    // one strong pull along the x axis, then none
    e.seek_step(Vec2::new(100 * ONE, 0), 1_008_000, 1_008_000);
    assert_eq!(e.position(), Vec2::new(1_008_000, 0));
    e.seek_step(Vec2::new(100 * ONE, 0), 0, 1_008_000);
    assert_eq!(e.position(), Vec2::new(2_008_000, 0));
    e.seek_step(Vec2::new(100 * ONE, 0), 0, 1_008_000);
    assert_eq!(e.position(), Vec2::new(2_008_000 + 992_063, 0));
    assert_eq!(e.position_prev(), Vec2::new(2_008_000, 0));
}

#[test]
fn every_enemy_seeks() {
    let config = Config::default();
    let mut enemies = vec![enemy(100 * ONE, 50 * ONE, 5 * ONE), enemy(0, 0, 6 * ONE), enemy(-30 * ONE, 0, 7 * ONE)];
    seek_all(&mut enemies, Vec2::new(0, 0), &config);
    assert_eq!(enemies.len(), 3);
    assert_eq!(enemies[0].position(), Vec2::new(99_867_255, 49_933_630));
    assert_eq!(enemies[1].position(), Vec2::new(0, 0));
    let mut alone = enemy(-30 * ONE, 0, 7 * ONE);
    alone.update(Vec2::new(0, 0), &config);
    assert_eq!(enemies[2].position(), alone.position());
    assert!(enemies[2].position().x > -30 * ONE);
    assert_eq!(enemies[2].radius(), 7 * ONE);
}

#[test]
fn the_rope_pushes_an_overlapping_enemy_to_its_reach() {
    // a point of thickness 6 at the origin and an enemy of radius 5 at (2, 0):
    // the reach is 8, and the enemy ends at (8, 0)
    let mut e = enemy(2 * ONE, 0, 5 * ONE);
    let thickness = 6 * ONE;
    e.push_from(Vec2::new(0, 0), thickness / 2 + e.radius());
    assert_eq!(e.position(), Vec2::new(8 * ONE, 0));
    // the push is no impulse: the previous position stays
    assert_eq!(e.position_prev(), Vec2::new(2 * ONE, 0));
    assert_eq!(e.radius(), 5 * ONE);
}

#[test]
fn a_push_keeps_the_direction() {
    let mut e = enemy(3 * ONE, 4 * ONE, 5 * ONE);
    e.push_from(Vec2::new(0, 0), 8 * ONE);
    assert_eq!(e.position(), Vec2::new(4_800_000, 6_400_000));
    let mut e = enemy(-3 * ONE, -4 * ONE, 5 * ONE);
    e.push_from(Vec2::new(0, 0), 8 * ONE);
    assert_eq!(e.position(), Vec2::new(-4_800_000, -6_400_000));
}

#[test]
fn an_enemy_at_the_reach_or_beyond_is_not_pushed() {
    let mut e = enemy(8 * ONE, 0, 5 * ONE);
    e.push_from(Vec2::new(0, 0), 8 * ONE);
    assert_eq!(e.position(), Vec2::new(8 * ONE, 0));
    let mut e = enemy(8 * ONE - 1, 0, 5 * ONE);
    e.push_from(Vec2::new(0, 0), 8 * ONE);
    assert_eq!(e.position(), Vec2::new(8 * ONE, 0));
    let mut e = enemy(20 * ONE, 0, 5 * ONE);
    e.push_from(Vec2::new(0, 0), 8 * ONE);
    assert_eq!(e.position(), Vec2::new(20 * ONE, 0));
    let mut e = enemy(ONE, 0, 5 * ONE);
    e.push_from(Vec2::new(0, 0), 0);
    assert_eq!(e.position(), Vec2::new(ONE, 0));
}

#[test]
fn an_enemy_on_the_point_itself_stays() {
    let mut e = enemy(5 * ONE, 5 * ONE, 5 * ONE);
    e.push_from(Vec2::new(5 * ONE, 5 * ONE), 8 * ONE);
    assert_eq!(e.position(), Vec2::new(5 * ONE, 5 * ONE));
}

#[test]
fn two_overlapping_enemies_are_moved_apart_by_halves() {
    let mut a = enemy(0, 0, 5 * ONE);
    let mut b = enemy(6 * ONE, 0, 5 * ONE);
    Enemy::resolve_pair(&mut a, &mut b);
    assert_eq!(a.position(), Vec2::new(-2 * ONE, 0));
    assert_eq!(b.position(), Vec2::new(8 * ONE, 0));
    assert_eq!(a.position().distance(b.position()), 10 * ONE);
    assert_eq!(a.position_prev(), Vec2::new(0, 0));
    assert_eq!(b.position_prev(), Vec2::new(6 * ONE, 0));
}

#[test]
fn resolving_a_pair_does_not_depend_on_its_order() {
    let mut a = enemy(ONE, 2 * ONE, 7 * ONE);
    let mut b = enemy(4 * ONE, 6 * ONE, 5 * ONE);
    Enemy::resolve_pair(&mut a, &mut b);
    let mut a2 = enemy(ONE, 2 * ONE, 7 * ONE);
    let mut b2 = enemy(4 * ONE, 6 * ONE, 5 * ONE);
    Enemy::resolve_pair(&mut b2, &mut a2);
    assert_eq!(a.position(), Vec2::new(-1_100_000, -800_000));
    assert_eq!(b.position(), Vec2::new(6_100_000, 8_800_000));
    assert_eq!(a.position(), a2.position());
    assert_eq!(b.position(), b2.position());
    // the two have moved by opposite steps about the point midway between them
    assert_eq!(a.position().x + b.position().x, ONE + 4 * ONE);
    assert_eq!(a.position().y + b.position().y, 2 * ONE + 6 * ONE);
    // and are apart by the sum of their radii
    assert_eq!(a.position().distance(b.position()), 12 * ONE);
}

#[test]
fn order_does_not_matter_where_the_division_is_not_exact() {
    for (ax, ay, bx, by) in [(0i64, 0i64, 1_234_567i64, 7_654_321i64), (-5, 17, 3, -2), (1_000_001, 0, 0, 999_983)] {
        let mut a = enemy(ax, ay, 6 * ONE);
        let mut b = enemy(bx, by, 5 * ONE);
        Enemy::resolve_pair(&mut a, &mut b);
        let mut a2 = enemy(ax, ay, 6 * ONE);
        let mut b2 = enemy(bx, by, 5 * ONE);
        Enemy::resolve_pair(&mut b2, &mut a2);
        assert_eq!(a.position(), a2.position());
        assert_eq!(b.position(), b2.position());
        assert_eq!(a.position().x + b.position().x, ax + bx);
        assert_eq!(a.position().y + b.position().y, ay + by);
    }
}

#[test]
fn enemies_that_do_not_overlap_are_left_alone() {
    let mut a = enemy(0, 0, 5 * ONE);
    let mut b = enemy(10 * ONE, 0, 5 * ONE);
    Enemy::resolve_pair(&mut a, &mut b);
    assert_eq!(a.position(), Vec2::new(0, 0));
    assert_eq!(b.position(), Vec2::new(10 * ONE, 0));
}

#[test]
fn enemies_on_one_point_are_left_alone() {
    let mut a = enemy(3 * ONE, 3 * ONE, 5 * ONE);
    let mut b = enemy(3 * ONE, 3 * ONE, 5 * ONE);
    Enemy::resolve_pair(&mut a, &mut b);
    assert_eq!(a.position(), Vec2::new(3 * ONE, 3 * ONE));
    assert_eq!(b.position(), Vec2::new(3 * ONE, 3 * ONE));
}
