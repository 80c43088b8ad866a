use rope_sim::config::{Config, ConfigError};
use rope_sim::enemy::Enemy;
use rope_sim::fixed::ONE;
use rope_sim::food::Food;
use rope_sim::vec2::Vec2;
use rope_sim::world::{Draws, World};

fn start() -> World {
    World::new(Config::default(), Vec2::new(0, 0), Vec2::new(50 * ONE, 0)).unwrap()
}

fn draws() -> Draws {
    Draws { enemy_distance: 150 * ONE, enemy_radius: 7 * ONE, food_distance: 120 * ONE }
}

fn enemy_positions(world: &World) -> Vec<(i64, i64)> {
    world.enemies().iter().map(|e| (e.position().x, e.position().y)).collect()
}

fn food_positions(world: &World) -> Vec<(i64, i64)> {
    world.food().iter().map(|f| (f.position().x, f.position().y)).collect()
}

#[test]
fn a_world_starts_with_a_rope_at_rest_and_nothing_else() {
    let world = start();
    assert_eq!(world.rope().len(), 5);
    assert_eq!(world.rope().segment_length(), 12_500_000);
    assert_eq!(world.rope().point(4), Vec2::new(50 * ONE, 0));
    assert!(world.enemies().is_empty());
    assert!(world.food().is_empty());
    assert_eq!(world.enemy_timer().period(), 2_000_000);
    assert_eq!(world.enemy_timer().elapsed(), 0);
    assert_eq!(world.food_timer().period(), 1_000_000);
    assert_eq!(world.food_timer().elapsed(), 0);
    assert_eq!(world.config().substeps, 5);
}

#[test]
fn a_configuration_out_of_range_makes_no_world() {
    let mut config = Config::default();
    config.elasticity = 0;
    assert_eq!(World::new(config, Vec2::new(0, 0), Vec2::new(50 * ONE, 0)).err(), Some(ConfigError::Elasticity));
    let mut config = Config::default();
    config.point_count = 1;
    assert_eq!(World::new(config, Vec2::new(0, 0), Vec2::new(50 * ONE, 0)).err(), Some(ConfigError::TooFewPoints));
    let mut config = Config::default();
    config.food_period = 0;
    assert_eq!(World::new(config, Vec2::new(0, 0), Vec2::new(50 * ONE, 0)).err(), Some(ConfigError::FoodPeriod));
}

#[test]
fn the_world_follows_its_configuration() {
    let mut config = Config::default();
    config.point_count = 8;
    config.thickness = 2 * ONE;
    config.elasticity = 3 * ONE;
    config.enemy_period = 7;
    config.food_period = 9;
    let world = World::new(config, Vec2::new(0, 0), Vec2::new(70 * ONE, 0)).unwrap();
    assert_eq!(world.rope().len(), 8);
    assert_eq!(world.rope().thickness(), 2 * ONE);
    assert_eq!(world.rope().elasticity(), 3 * ONE);
    assert_eq!(world.rope().segment_length(), 10 * ONE);
    assert_eq!(world.enemy_timer().period(), 7);
    assert_eq!(world.food_timer().period(), 9);
}

#[test]
fn eight_ticks_of_half_a_second() {
    let mut world = start();
    let mut counts = Vec::new();
    for t in 1..=8i64 {
        world.update_with(Vec2::new(t * ONE, 2 * t * ONE), 500_000, draws());
        counts.push((world.enemies().len(), world.food().len()));
    }
    // enemies come every fourth tick, food every second
    assert_eq!(counts, vec![(0, 0), (0, 1), (0, 1), (1, 2), (1, 2), (1, 3), (1, 3), (2, 4)]);
    assert_eq!(enemy_positions(&world), vec![(152_578_092, 156_596_620), (158_000_000, 166_000_000)]);
    assert_eq!(world.enemies()[0].radius(), 7 * ONE);
    assert_eq!(
        food_positions(&world),
        vec![(122_000_000, 124_000_000), (124_000_000, 128_000_000), (126_000_000, 132_000_000), (128_000_000, 136_000_000)]
    );
    let rope: Vec<(i64, i64)> = world.rope().points().iter().map(|p| (p.x, p.y)).collect();
    assert_eq!(
        rope,
        vec![(8_000_000, 16_000_000), (13_925_752, 3_553_312), (25_993_180, 208_106), (38_508_733, 13_476), (51_016_710, 72)]
    );
    assert_eq!(world.enemy_timer().elapsed(), 0);
    assert_eq!(world.food_timer().elapsed(), 0);
}

#[test]
fn the_rope_eats_the_food_it_reaches() {
    let mut world = start();
    world.update_with(Vec2::new(0, 0), 1_000_000, Draws { enemy_distance: 0, enemy_radius: 0, food_distance: 100 * ONE });
    assert_eq!(food_positions(&world), vec![(100 * ONE, 100 * ONE)]);
    // the anchor comes within thickness plus radius of the food
    world.update_with(Vec2::new(95 * ONE, 95 * ONE), 10, Draws { enemy_distance: 0, enemy_radius: 0, food_distance: 0 });
    assert!(world.food().is_empty());
    assert_eq!(world.food_timer().elapsed(), 10);
}

#[test]
fn an_enemy_put_beyond_the_cull_radius_is_gone_after_the_tick() {
    let mut world = start();
    world.add_enemy(Enemy::with_radius(Vec2::new(600 * ONE, 0), 5 * ONE).unwrap());
    world.add_enemy(Enemy::with_radius(Vec2::new(100 * ONE, 0), 5 * ONE).unwrap());
    assert_eq!(world.enemies().len(), 2);
    world.update_with(Vec2::new(0, 0), 1, draws());
    assert_eq!(world.enemies().len(), 1);
    assert!(world.enemies()[0].position().x < 100 * ONE);
    assert!(world.enemies()[0].position().x > 99 * ONE);
}

#[test]
fn enemies_seek_then_collide_then_are_culled() {
    let config = Config::default();
    let mut world = start();
    world.add_enemy(Enemy::with_radius(Vec2::new(20 * ONE, 30 * ONE), 5 * ONE).unwrap());
    world.add_enemy(Enemy::with_radius(Vec2::new(24 * ONE, 33 * ONE), 6 * ONE).unwrap());
    world.add_food(Food::new(Vec2::new(0, 200 * ONE)));
    let target = Vec2::new(5 * ONE, 5 * ONE);
    world.update_with(target, 1, draws());

    let mut rope = rope_sim::rope::Rope::new(Vec2::new(0, 0), Vec2::new(50 * ONE, 0), 5).unwrap();
    let mut enemies = vec![
        Enemy::with_radius(Vec2::new(20 * ONE, 30 * ONE), 5 * ONE).unwrap(),
        Enemy::with_radius(Vec2::new(24 * ONE, 33 * ONE), 6 * ONE).unwrap(),
    ];
    rope.update(target, &config);
    rope_sim::enemy::seek_all(&mut enemies, target, &config);
    rope_sim::collision::rope_collisions(&rope, &mut enemies);
    rope_sim::collision::enemy_collisions(&mut enemies);
    rope_sim::spawn::cull_enemies(&mut enemies, rope.anchor(), config.cull_radius);
    let expected: Vec<(i64, i64)> = enemies.iter().map(|e| (e.position().x, e.position().y)).collect();
    assert_eq!(enemy_positions(&world), expected);
    assert_eq!(world.rope().anchor(), target);
    assert_eq!(food_positions(&world), vec![(0, 200 * ONE)]);
    // the two overlapped and were pushed apart
    let apart = world.enemies()[0].position().distance(world.enemies()[1].position());
    assert!((apart - 11 * ONE).abs() <= 3);
}

#[test]
fn a_random_tick_keeps_everything_in_range() {
    let mut world = start();
    for t in 0..400i64 {
        world.update(Vec2::new((t % 50) * ONE, (t % 30) * ONE), 100_000);
        assert_eq!(world.rope().len(), 5);
        // one enemy has come with every twentieth tick; a collision may have
        // flung some beyond the cull radius since
        assert!(world.enemies().len() as i64 <= (t + 1) / 20);
        assert_eq!(world.enemy_timer().elapsed(), ((t as u64 + 1) % 20) * 100_000);
        for e in world.enemies() {
            assert!(5 * ONE <= e.radius() && e.radius() < 15 * ONE);
            assert!(!e.position().farther_than(world.rope().anchor(), 500 * ONE));
        }
        for f in world.food() {
            assert_eq!(f.radius(), 5 * ONE);
            assert!(!f.eaten_by(world.rope()));
        }
    }
    assert!(world.enemies().len() >= 2);
    assert!(world.enemies().iter().any(|e| e.radius() != world.enemies()[0].radius()));
}
