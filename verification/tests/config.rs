use rope_sim::config::{Config, ConfigError};
use rope_sim::fixed::WORLD_LIMIT;

#[test]
fn the_defaults_are_as_documented() {
    let c = Config::default();
    assert_eq!(c.point_count, 5);
    assert_eq!(c.thickness, 6_000_000);
    assert_eq!(c.elasticity, 5_000_000);
    assert_eq!(c.damping, 1_008_000);
    assert_eq!(c.substeps, 5);
    assert_eq!(c.inner_iterations, 3);
    assert_eq!(c.seek_acceleration, 10_000);
    assert_eq!(c.enemy_period, 2_000_000);
    assert_eq!(c.food_period, 1_000_000);
    assert_eq!(c.cull_radius, 500_000_000);
    assert_eq!(c.enemy_spawn_min, 100_000_000);
    assert_eq!(c.enemy_spawn_max, 200_000_000);
    assert_eq!(c.food_spawn_min, 100_000_000);
    assert_eq!(c.food_spawn_max, 300_000_000);
    assert_eq!(c.enemy_radius_min, 5_000_000);
    assert_eq!(c.enemy_radius_max, 15_000_000);
    assert_eq!(c.food_radius, 5_000_000);
    assert_eq!(c.validate(), Ok(()));
}

#[test]
fn too_few_points_are_rejected() {
    let mut c = Config::default();
    c.point_count = 1;
    assert_eq!(c.validate(), Err(ConfigError::TooFewPoints));
    c.point_count = 0;
    assert_eq!(c.validate(), Err(ConfigError::TooFewPoints));
    c.point_count = 2;
    assert_eq!(c.validate(), Ok(()));
}

#[test]
fn a_thickness_out_of_range_is_rejected() {
    let mut c = Config::default();
    c.thickness = -1;
    assert_eq!(c.validate(), Err(ConfigError::Thickness));
    c.thickness = WORLD_LIMIT + 1;
    assert_eq!(c.validate(), Err(ConfigError::Thickness));
    c.thickness = 0;
    assert_eq!(c.validate(), Ok(()));
}

#[test]
fn an_elasticity_of_zero_is_rejected() {
    let mut c = Config::default();
    c.elasticity = 0;
    assert_eq!(c.validate(), Err(ConfigError::Elasticity));
    c.elasticity = -5_000_000;
    assert_eq!(c.validate(), Err(ConfigError::Elasticity));
    c.elasticity = WORLD_LIMIT + 1;
    assert_eq!(c.validate(), Err(ConfigError::Elasticity));
    c.elasticity = 1;
    assert_eq!(c.validate(), Ok(()));
}

#[test]
fn a_damping_of_zero_is_rejected() {
    let mut c = Config::default();
    c.damping = 0;
    assert_eq!(c.validate(), Err(ConfigError::Damping));
    c.damping = WORLD_LIMIT + 1;
    assert_eq!(c.validate(), Err(ConfigError::Damping));
}

#[test]
fn an_acceleration_out_of_range_is_rejected() {
    let mut c = Config::default();
    c.seek_acceleration = WORLD_LIMIT + 1;
    assert_eq!(c.validate(), Err(ConfigError::SeekAcceleration));
    c.seek_acceleration = -WORLD_LIMIT - 1;
    assert_eq!(c.validate(), Err(ConfigError::SeekAcceleration));
    c.seek_acceleration = -10_000;
    assert_eq!(c.validate(), Ok(()));
}

#[test]
fn periods_of_zero_are_rejected() {
    let mut c = Config::default();
    c.enemy_period = 0;
    assert_eq!(c.validate(), Err(ConfigError::EnemyPeriod));
    c.food_period = 0;
    assert_eq!(c.validate(), Err(ConfigError::EnemyPeriod));
    c.enemy_period = 1;
    assert_eq!(c.validate(), Err(ConfigError::FoodPeriod));
}

#[test]
fn a_cull_radius_out_of_range_is_rejected() {
    let mut c = Config::default();
    c.cull_radius = -1;
    assert_eq!(c.validate(), Err(ConfigError::CullRadius));
    c.cull_radius = WORLD_LIMIT + 1;
    assert_eq!(c.validate(), Err(ConfigError::CullRadius));
}

#[test]
fn empty_spawn_ranges_are_rejected() {
    let mut c = Config::default();
    c.enemy_spawn_min = c.enemy_spawn_max + 1;
    assert_eq!(c.validate(), Err(ConfigError::EnemySpawnRange));
    c = Config::default();
    c.enemy_spawn_max = WORLD_LIMIT + 1;
    assert_eq!(c.validate(), Err(ConfigError::EnemySpawnRange));
    c = Config::default();
    c.food_spawn_min = c.food_spawn_max + 1;
    assert_eq!(c.validate(), Err(ConfigError::FoodSpawnRange));
    c = Config::default();
    c.food_spawn_min = -WORLD_LIMIT - 1;
    assert_eq!(c.validate(), Err(ConfigError::FoodSpawnRange));
    c = Config::default();
    c.enemy_spawn_min = c.enemy_spawn_max;
    c.food_spawn_min = c.food_spawn_max;
    assert_eq!(c.validate(), Ok(()));
}

#[test]
fn radii_out_of_range_are_rejected() {
    let mut c = Config::default();
    c.enemy_radius_min = c.enemy_radius_max;
    assert_eq!(c.validate(), Err(ConfigError::EnemyRadiusRange));
    c = Config::default();
    c.enemy_radius_min = -1;
    assert_eq!(c.validate(), Err(ConfigError::EnemyRadiusRange));
    c = Config::default();
    c.enemy_radius_max = WORLD_LIMIT + 1;
    assert_eq!(c.validate(), Err(ConfigError::EnemyRadiusRange));
    c = Config::default();
    c.food_radius = -1;
    assert_eq!(c.validate(), Err(ConfigError::FoodRadius));
    c.food_radius = WORLD_LIMIT + 1;
    assert_eq!(c.validate(), Err(ConfigError::FoodRadius));
}

#[test]
fn the_first_constant_out_of_range_is_named() {
    let mut c = Config::default();
    c.food_radius = -1;
    c.damping = 0;
    c.thickness = -1;
    assert_eq!(c.validate(), Err(ConfigError::Thickness));
    c.thickness = 1;
    assert_eq!(c.validate(), Err(ConfigError::Damping));
    c.damping = 1;
    assert_eq!(c.validate(), Err(ConfigError::FoodRadius));
}
