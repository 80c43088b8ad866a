//! Tuning constants of the simulation, with their defaults and limits.

use vstd::prelude::*;
use crate::fixed::WORLD_LIMIT;

verus! {

/// Why a configuration was rejected.
#[derive(Clone, Copy, Debug, PartialEq, Eq, Structural)]
pub enum ConfigError {
    /// A rope needs at least two points.
    TooFewPoints,
    /// The thickness is negative or larger than the world.
    Thickness,
    /// The elasticity is not positive, or larger than the world.
    Elasticity,
    /// The damping divisor is not positive, or larger than the world.
    Damping,
    /// The seek acceleration is larger in magnitude than the world.
    SeekAcceleration,
    /// The period of the enemy timer is zero.
    EnemyPeriod,
    /// The period of the food timer is zero.
    FoodPeriod,
    /// The cull radius is negative or larger than the world.
    CullRadius,
    /// The enemy spawn distances are empty or leave the world.
    EnemySpawnRange,
    /// The food spawn distances are empty or leave the world.
    FoodSpawnRange,
    /// The enemy radii are empty, negative or larger than the world.
    EnemyRadiusRange,
    /// The food radius is negative or larger than the world.
    FoodRadius,
}

/// The tuning constants.  Lengths are in micro-units, periods in
/// microseconds.
#[derive(Clone, Copy, Debug)]
pub struct Config {
    /// Number of points of the rope; default 5.
    pub point_count: usize,
    /// Thickness of the rope; default 6 units.
    pub thickness: i64,
    /// Divisor of every rest-length correction (larger is softer); default 5.
    pub elasticity: i64,
    /// Divisor applied to every velocity once per integration; default 1.008.
    pub damping: i64,
    /// Outer relaxation rounds per tick, and seek steps per tick; default 5.
    pub substeps: u32,
    /// Passes over the rope in each relaxation round; default 3.
    pub inner_iterations: u32,
    /// Length of the pull of an enemy toward its target in each seek step;
    /// default 0.01 units.
    pub seek_acceleration: i64,
    /// Time between two enemy spawns; default 2 seconds.
    pub enemy_period: u64,
    /// Time between two food spawns; default 1 second.
    pub food_period: u64,
    /// Enemies farther than this from the anchor are removed; default 500
    /// units.
    pub cull_radius: i64,
    /// Smallest offset of a new enemy from the anchor, on each axis; default
    /// 100 units.
    pub enemy_spawn_min: i64,
    /// Largest offset of a new enemy from the anchor, on each axis; default
    /// 200 units.
    pub enemy_spawn_max: i64,
    /// Smallest offset of new food from the anchor, on each axis; default 100
    /// units.
    pub food_spawn_min: i64,
    /// Largest offset of new food from the anchor, on each axis; default 300
    /// units.
    pub food_spawn_max: i64,
    /// Smallest radius of a new enemy; default 5 units.
    pub enemy_radius_min: i64,
    /// Radius that a new enemy stays below; default 15 units.
    pub enemy_radius_max: i64,
    /// Radius of food; default 5 units.
    pub food_radius: i64,
}

impl Config {
    /// The defaults.
    pub open spec fn standard() -> Config {
        Config {
            point_count: 5,
            thickness: 6_000_000,
            elasticity: 5_000_000,
            damping: 1_008_000,
            substeps: 5,
            inner_iterations: 3,
            seek_acceleration: 10_000,
            enemy_period: 2_000_000,
            food_period: 1_000_000,
            cull_radius: 500_000_000,
            enemy_spawn_min: 100_000_000,
            enemy_spawn_max: 200_000_000,
            food_spawn_min: 100_000_000,
            food_spawn_max: 300_000_000,
            enemy_radius_min: 5_000_000,
            enemy_radius_max: 15_000_000,
            food_radius: 5_000_000,
        }
    }

    /// The first constant, in the order of the fields, that is out of range.
    pub open spec fn first_error(self) -> Option<ConfigError> {
        if self.point_count < 2 {
            Some(ConfigError::TooFewPoints)
        } else if !(0 <= self.thickness <= WORLD_LIMIT) {
            Some(ConfigError::Thickness)
        } else if !(0 < self.elasticity <= WORLD_LIMIT) {
            Some(ConfigError::Elasticity)
        } else if !(0 < self.damping <= WORLD_LIMIT) {
            Some(ConfigError::Damping)
        } else if !(-WORLD_LIMIT <= self.seek_acceleration <= WORLD_LIMIT) {
            Some(ConfigError::SeekAcceleration)
        } else if self.enemy_period == 0 {
            Some(ConfigError::EnemyPeriod)
        } else if self.food_period == 0 {
            Some(ConfigError::FoodPeriod)
        } else if !(0 <= self.cull_radius <= WORLD_LIMIT) {
            Some(ConfigError::CullRadius)
        } else if !(-WORLD_LIMIT <= self.enemy_spawn_min <= self.enemy_spawn_max <= WORLD_LIMIT) {
            Some(ConfigError::EnemySpawnRange)
        } else if !(-WORLD_LIMIT <= self.food_spawn_min <= self.food_spawn_max <= WORLD_LIMIT) {
            Some(ConfigError::FoodSpawnRange)
        } else if !(0 <= self.enemy_radius_min < self.enemy_radius_max <= WORLD_LIMIT) {
            Some(ConfigError::EnemyRadiusRange)
        } else if !(0 <= self.food_radius <= WORLD_LIMIT) {
            Some(ConfigError::FoodRadius)
        } else {
            None
        }
    }

    /// Every constant is in range.
    pub open spec fn valid(self) -> bool {
        self.first_error() is None
    }

    /// Accepts a configuration in which every constant is in range, and
    /// otherwise names the first one that is not.
    pub fn validate(&self) -> (r: Result<(), ConfigError>)
        ensures
            r is Ok <==> self.valid(),
            r is Err ==> self.first_error() == Some(r->Err_0),
    {
        if self.point_count < 2 {
            Err(ConfigError::TooFewPoints)
        } else if !(0 <= self.thickness && self.thickness <= WORLD_LIMIT) {
            Err(ConfigError::Thickness)
        } else if !(0 < self.elasticity && self.elasticity <= WORLD_LIMIT) {
            Err(ConfigError::Elasticity)
        } else if !(0 < self.damping && self.damping <= WORLD_LIMIT) {
            Err(ConfigError::Damping)
        } else if !(-WORLD_LIMIT <= self.seek_acceleration && self.seek_acceleration
            <= WORLD_LIMIT) {
            Err(ConfigError::SeekAcceleration)
        } else if self.enemy_period == 0 {
            Err(ConfigError::EnemyPeriod)
        } else if self.food_period == 0 {
            Err(ConfigError::FoodPeriod)
        } else if !(0 <= self.cull_radius && self.cull_radius <= WORLD_LIMIT) {
            Err(ConfigError::CullRadius)
        } else if !(-WORLD_LIMIT <= self.enemy_spawn_min && self.enemy_spawn_min
            <= self.enemy_spawn_max && self.enemy_spawn_max <= WORLD_LIMIT) {
            Err(ConfigError::EnemySpawnRange)
        } else if !(-WORLD_LIMIT <= self.food_spawn_min && self.food_spawn_min
            <= self.food_spawn_max && self.food_spawn_max <= WORLD_LIMIT) {
            Err(ConfigError::FoodSpawnRange)
        } else if !(0 <= self.enemy_radius_min && self.enemy_radius_min < self.enemy_radius_max
            && self.enemy_radius_max <= WORLD_LIMIT) {
            Err(ConfigError::EnemyRadiusRange)
        } else if !(0 <= self.food_radius && self.food_radius <= WORLD_LIMIT) {
            Err(ConfigError::FoodRadius)
        } else {
            Ok(())
        }
    }
}

impl Default for Config {
    fn default() -> (c: Config)
        ensures
            c == Config::standard(),
            c.valid(),
    {
        Config {
            point_count: 5,
            thickness: 6_000_000,
            elasticity: 5_000_000,
            damping: 1_008_000,
            substeps: 5,
            inner_iterations: 3,
            seek_acceleration: 10_000,
            enemy_period: 2_000_000,
            food_period: 1_000_000,
            cull_radius: 500_000_000,
            enemy_spawn_min: 100_000_000,
            enemy_spawn_max: 200_000_000,
            food_spawn_min: 100_000_000,
            food_spawn_max: 300_000_000,
            enemy_radius_min: 5_000_000,
            enemy_radius_max: 15_000_000,
            food_radius: 5_000_000,
        }
    }
}

} // verus!
