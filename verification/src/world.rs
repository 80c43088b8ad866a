//! The world: one rope, the enemies, the food and the two spawn timers,
//! advanced together one tick at a time.

use vstd::prelude::*;
use crate::collision::{enemy_collisions, pushed_from_rope, resolved_all, rope_collisions};
use crate::config::{Config, ConfigError};
use crate::enemy::{all_enemies_wf, chased, enemy_models, seek_all, Enemy, EnemyModel};
use crate::food::{Food, FoodModel};
use crate::rope::{Rope, RopeError, RopeModel};
use crate::spawn::{
    all_food_wf, enemies_after_spawn, food_after_spawn, food_models, spawn_enemies,
    spawn_enemies_with, spawn_food, spawn_food_with,
};
use crate::spawn_laws::{lemma_cull_removes_far, lemma_eating_removes_touched};
use crate::timer::{SpawnTimer, TimerModel};
use crate::vec2::{Vec2, Vector};

verus! {

/// The random draws that one tick may use.
#[derive(Clone, Copy, Debug)]
pub struct Draws {
    /// Offset of a new enemy from the anchor, on each axis.
    pub enemy_distance: i64,
    /// Radius of a new enemy.
    pub enemy_radius: i64,
    /// Offset of a new piece of food from the anchor, on each axis.
    pub food_distance: i64,
}

/// The mathematical model of a [`World`].
pub struct WorldModel {
    /// The rope.
    pub rope: RopeModel,
    /// The enemies, the oldest first.
    pub enemies: Seq<EnemyModel>,
    /// The food, the oldest first.
    pub food: Seq<FoodModel>,
    /// The timer that brings enemies.
    pub enemy_timer: TimerModel,
    /// The timer that brings food.
    pub food_timer: TimerModel,
    /// The tuning constants.
    pub config: Config,
}

impl WorldModel {
    /// The invariant of a world: that of each of its parts, a configuration
    /// with every constant in range, and a rope and timers that are as the
    /// configuration says.
    pub open spec fn wf(self) -> bool {
        &&& self.rope.wf()
        &&& all_enemies_wf(self.enemies)
        &&& all_food_wf(self.food)
        &&& self.enemy_timer.wf()
        &&& self.food_timer.wf()
        &&& self.config.valid()
        &&& self.rope.points.len() == self.config.point_count
        &&& self.rope.thickness == self.config.thickness
        &&& self.rope.elasticity == self.config.elasticity
        &&& self.enemy_timer.period == self.config.enemy_period
        &&& self.food_timer.period == self.config.food_period
    }

    /// The world at its start: a rope at rest from `start` to `end`, no
    /// enemies, no food, and two fresh timers.
    pub open spec fn initial(config: Config, start: Vector, end: Vector) -> WorldModel {
        WorldModel {
            rope: RopeModel::initial(
                start,
                end,
                config.point_count as nat,
                config.thickness as int,
                config.elasticity as int,
            ),
            enemies: Seq::empty(),
            food: Seq::empty(),
            enemy_timer: TimerModel::fresh(config.enemy_period as nat),
            food_timer: TimerModel::fresh(config.food_period as nat),
            config,
        }
    }

    /// The world one tick later, in the order that a tick keeps: the rope
    /// follows `target`; every enemy seeks the rope's new anchor; the rope
    /// pushes the enemies out; the enemies push each other apart; enemies
    /// appear and are culled; food appears and is eaten.
    pub open spec fn stepped(self, target: Vector, delta: nat, draws: Draws) -> WorldModel {
        let config = self.config;
        let rope = self.rope.updated(
            target,
            config.damping as int,
            config.substeps as nat,
            config.inner_iterations as nat,
        );
        let seeking = chased(
            self.enemies,
            target.clamped(),
            config.seek_acceleration as int,
            config.damping as int,
            config.substeps as nat,
        );
        let pushed = pushed_from_rope(seeking, rope.points, rope.thickness);
        let apart = resolved_all(pushed);
        WorldModel {
            rope,
            enemies: enemies_after_spawn(
                apart,
                self.enemy_timer,
                delta,
                rope.anchor(),
                draws.enemy_distance as int,
                draws.enemy_radius as int,
                config,
            ),
            food: food_after_spawn(
                self.food,
                self.food_timer,
                delta,
                rope.points,
                rope.thickness,
                draws.food_distance as int,
                config,
            ),
            enemy_timer: self.enemy_timer.ticked(delta),
            food_timer: self.food_timer.ticked(delta),
            config,
        }
    }
}

impl WorldModel {
    /// What holds at the end of every tick: no enemy is farther than the
    /// cull radius from the anchor, and no piece of food is touched by the
    /// rope.
    pub open spec fn tidy(self) -> bool {
        &&& forall|i: int|
            0 <= i < self.enemies.len() ==> !(#[trigger] self.enemies[i]).position.farther_than(
                self.rope.anchor(),
                self.config.cull_radius as int,
            )
        &&& forall|i: int|
            0 <= i < self.food.len() ==> !(#[trigger] self.food[i]).eaten_by(
                self.rope.points,
                self.rope.thickness,
            )
    }

    /// Every tick ends with the world tidy, whatever it was before and
    /// whatever was drawn.
    pub proof fn lemma_stepped_tidy(self, target: Vector, delta: nat, draws: Draws)
        ensures
            self.stepped(target, delta, draws).tidy(),
    {
        let after = self.stepped(target, delta, draws);
        let config = self.config;
        let rope = after.rope;
        let seeking = chased(
            self.enemies,
            target.clamped(),
            config.seek_acceleration as int,
            config.damping as int,
            config.substeps as nat,
        );
        let apart = resolved_all(pushed_from_rope(seeking, rope.points, rope.thickness));
        let grown_enemies = if self.enemy_timer.fires(delta) {
            apart.push(
                crate::spawn::new_enemy(
                    rope.anchor(),
                    draws.enemy_distance as int,
                    draws.enemy_radius as int,
                    config,
                ),
            )
        } else {
            apart
        };
        let grown_food = if self.food_timer.fires(delta) {
            self.food.push(crate::spawn::new_food(rope.points[0], draws.food_distance as int, config))
        } else {
            self.food
        };
        assert forall|i: int| 0 <= i < after.enemies.len() implies !(
        #[trigger] after.enemies[i]).position.farther_than(
            rope.anchor(),
            config.cull_radius as int,
        ) by {
            assert(after.enemies.contains(after.enemies[i]));
            lemma_cull_removes_far(
                grown_enemies,
                rope.anchor(),
                config.cull_radius as int,
                after.enemies[i],
            );
        }
        assert forall|i: int| 0 <= i < after.food.len() implies !(#[trigger] after.food[i]).eaten_by(
            rope.points,
            rope.thickness,
        ) by {
            assert(after.food.contains(after.food[i]));
            lemma_eating_removes_touched(grown_food, rope.points, rope.thickness, after.food[i]);
        }
    }
}

/// The world.
pub struct World {
    rope: Rope,
    enemies: Vec<Enemy>,
    food: Vec<Food>,
    enemy_timer: SpawnTimer,
    food_timer: SpawnTimer,
    config: Config,
}

impl View for World {
    type V = WorldModel;

    closed spec fn view(&self) -> WorldModel {
        WorldModel {
            rope: self.rope@,
            enemies: enemy_models(self.enemies@),
            food: food_models(self.food@),
            enemy_timer: self.enemy_timer@,
            food_timer: self.food_timer@,
            config: self.config,
        }
    }
}

impl World {
    /// The invariant of a world.
    pub open spec fn wf(&self) -> bool {
        self@.wf()
    }

    /// A world at its start, with a rope at rest from `start` to `end`
    /// (both moved into the world if they lie outside).  A configuration
    /// with a constant out of range is rejected, with the first such
    /// constant named.
    pub fn new(config: Config, start: Vec2, end: Vec2) -> (r: Result<World, ConfigError>)
        ensures
            r is Ok <==> config.valid(),
            r is Err ==> config.first_error() == Some(r->Err_0),
            r is Ok ==> r->Ok_0.wf() && r->Ok_0@ == WorldModel::initial(
                config,
                start@.clamped(),
                end@.clamped(),
            ),
    {
        match config.validate() {
            Err(e) => {
                return Err(e);
            },
            Ok(()) => {},
        }
        let rope = match Rope::with_tuning(
            start,
            end,
            config.point_count,
            config.thickness,
            config.elasticity,
        ) {
            Ok(rope) => rope,
            Err(RopeError::TooFewPoints) => {
                return Err(ConfigError::TooFewPoints);
            },
            Err(RopeError::Thickness) => {
                return Err(ConfigError::Thickness);
            },
            Err(RopeError::Elasticity) => {
                return Err(ConfigError::Elasticity);
            },
        };
        let enemy_timer = match SpawnTimer::new(config.enemy_period) {
            Some(timer) => timer,
            None => {
                return Err(ConfigError::EnemyPeriod);
            },
        };
        let food_timer = match SpawnTimer::new(config.food_period) {
            Some(timer) => timer,
            None => {
                return Err(ConfigError::FoodPeriod);
            },
        };
        let world = World {
            rope,
            enemies: Vec::new(),
            food: Vec::new(),
            enemy_timer,
            food_timer,
            config,
        };
        proof {
            assert(world@.enemies =~= Seq::<EnemyModel>::empty());
            assert(world@.food =~= Seq::<FoodModel>::empty());
        }
        Ok(world)
    }

    /// The rope.
    pub fn rope(&self) -> (rope: &Rope)
        ensures
            rope@ == self@.rope,
    {
        &self.rope
    }

    /// The enemies, the oldest first.
    pub fn enemies(&self) -> (enemies: &Vec<Enemy>)
        ensures
            enemy_models(enemies@) == self@.enemies,
    {
        &self.enemies
    }

    /// The food, the oldest first.
    pub fn food(&self) -> (food: &Vec<Food>)
        ensures
            food_models(food@) == self@.food,
    {
        &self.food
    }

    /// The timer that brings enemies.
    pub fn enemy_timer(&self) -> (timer: &SpawnTimer)
        ensures
            timer@ == self@.enemy_timer,
    {
        &self.enemy_timer
    }

    /// The timer that brings food.
    pub fn food_timer(&self) -> (timer: &SpawnTimer)
        ensures
            timer@ == self@.food_timer,
    {
        &self.food_timer
    }

    /// The tuning constants.
    pub fn config(&self) -> (config: &Config)
        ensures
            *config == self@.config,
    {
        &self.config
    }

    /// Puts an enemy into the world, after all others.
    pub fn add_enemy(&mut self, enemy: Enemy)
        requires
            old(self).wf(),
            enemy.wf(),
        ensures
            final(self).wf(),
            final(self)@ == (WorldModel { enemies: old(self)@.enemies.push(enemy@), ..old(self)@ }),
    {
        let ghost before = enemy_models(self.enemies@);
        self.enemies.push(enemy);
        proof {
            assert(enemy_models(self.enemies@) =~= before.push(enemy@));
        }
    }

    /// Puts a piece of food into the world, after all others.
    pub fn add_food(&mut self, piece: Food)
        requires
            old(self).wf(),
            piece.wf(),
        ensures
            final(self).wf(),
            final(self)@ == (WorldModel { food: old(self)@.food.push(piece@), ..old(self)@ }),
    {
        let ghost before = food_models(self.food@);
        self.food.push(piece);
        proof {
            assert(food_models(self.food@) =~= before.push(piece@));
        }
    }

    /// The first part of a tick, which draws nothing: the rope follows
    /// `target`, every enemy seeks the rope's new anchor, the rope pushes
    /// the enemies out, and the enemies push each other apart.
    fn advance(&mut self, target: Vec2)
        requires
            old(self).wf(),
        ensures
            final(self).wf(),
            final(self)@ == ({
                let before = old(self)@;
                let config = before.config;
                let rope = before.rope.updated(
                    target@,
                    config.damping as int,
                    config.substeps as nat,
                    config.inner_iterations as nat,
                );
                let seeking = chased(
                    before.enemies,
                    target@.clamped(),
                    config.seek_acceleration as int,
                    config.damping as int,
                    config.substeps as nat,
                );
                WorldModel {
                    rope,
                    enemies: resolved_all(pushed_from_rope(seeking, rope.points, rope.thickness)),
                    ..before
                }
            }),
    {
        self.rope.update(target, &self.config);
        seek_all(&mut self.enemies, target, &self.config);
        rope_collisions(&self.rope, &mut self.enemies);
        enemy_collisions(&mut self.enemies);
    }

    /// One tick, from given draws, when `delta` has passed since the last:
    /// the rope follows `target`; every enemy seeks the rope's new anchor;
    /// the rope pushes the enemies out; the enemies push each other apart;
    /// enemies appear and are culled; food appears and is eaten.
    pub fn update_with(&mut self, target: Vec2, delta: u64, draws: Draws)
        requires
            old(self).wf(),
        ensures
            final(self).wf(),
            final(self)@ == old(self)@.stepped(target@, delta as nat, draws),
            final(self)@.tidy(),
    {
        proof {
            old(self)@.lemma_stepped_tidy(target@, delta as nat, draws);
        }
        self.advance(target);
        spawn_enemies_with(
            &self.rope,
            &mut self.enemies,
            &mut self.enemy_timer,
            delta,
            &self.config,
            draws.enemy_distance,
            draws.enemy_radius,
        );
        spawn_food_with(
            &self.rope,
            &mut self.food,
            &mut self.food_timer,
            delta,
            &self.config,
            draws.food_distance,
        );
    }

    /// One tick, as [`World::update_with`], with draws made at random from
    /// the ranges of the configuration.
    pub fn update(&mut self, target: Vec2, delta: u64)
        requires
            old(self).wf(),
        ensures
            final(self).wf(),
            exists|draws: Draws|
                {
                    &&& old(self)@.config.enemy_spawn_min <= draws.enemy_distance
                        <= old(self)@.config.enemy_spawn_max
                    &&& old(self)@.config.enemy_radius_min <= draws.enemy_radius
                        < old(self)@.config.enemy_radius_max
                    &&& old(self)@.config.food_spawn_min <= draws.food_distance
                        <= old(self)@.config.food_spawn_max
                    &&& final(self)@ == #[trigger] old(self)@.stepped(target@, delta as nat, draws)
                },
            final(self)@.tidy(),
    {
        let ghost before = self@;
        self.advance(target);
        let ghost advanced = self@;
        spawn_enemies(&self.rope, &mut self.enemies, &mut self.enemy_timer, delta, &self.config);
        spawn_food(&self.rope, &mut self.food, &mut self.food_timer, delta, &self.config);
        proof {
            let config = before.config;
            let (enemy_distance, enemy_radius) = choose|distance: int, radius: int|
                {
                    &&& config.enemy_spawn_min <= distance <= config.enemy_spawn_max
                    &&& config.enemy_radius_min <= radius < config.enemy_radius_max
                    &&& self@.enemies == #[trigger] enemies_after_spawn(
                        advanced.enemies,
                        advanced.enemy_timer,
                        delta as nat,
                        advanced.rope.anchor(),
                        distance,
                        radius,
                        config,
                    )
                };
            let food_distance = choose|distance: int|
                {
                    &&& config.food_spawn_min <= distance <= config.food_spawn_max
                    &&& self@.food == #[trigger] food_after_spawn(
                        advanced.food,
                        advanced.food_timer,
                        delta as nat,
                        advanced.rope.points,
                        advanced.rope.thickness,
                        distance,
                        config,
                    )
                };
            let draws = Draws {
                enemy_distance: enemy_distance as i64,
                enemy_radius: enemy_radius as i64,
                food_distance: food_distance as i64,
            };
            assert(self@ == before.stepped(target@, delta as nat, draws));
            before.lemma_stepped_tidy(target@, delta as nat, draws);
        }
    }
}

} // verus!
