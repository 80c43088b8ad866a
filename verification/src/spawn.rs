//! The two populations: when enemies and food appear, and when they go.

use vstd::prelude::*;
use crate::config::Config;
use crate::enemy::{all_enemies_wf, enemy_models, Enemy, EnemyModel};
use crate::food::{Food, FoodModel};
use crate::random::random_between;
use crate::rope::Rope;
use crate::timer::{SpawnTimer, TimerModel};
use crate::vec2::{Vec2, Vector};

verus! {

/// The pieces of food that a sequence of stored pieces stands for.
pub open spec fn food_models(food: Seq<Food>) -> Seq<FoodModel> {
    food.map_values(|f: Food| f@)
}

/// Every piece of the sequence meets the invariant of a piece of food.
pub open spec fn all_food_wf(food: Seq<FoodModel>) -> bool {
    forall|i: int| 0 <= i < food.len() ==> (#[trigger] food[i]).wf()
}

/// The number between `low` and `high` nearest to `v`.
pub open spec fn clamp_between(v: int, low: int, high: int) -> int
    recommends
        low <= high,
{
    if v < low {
        low
    } else if v > high {
        high
    } else {
        v
    }
}

/// Where a newcomer appears: off the anchor by `distance` on both axes,
/// kept inside the world.
pub open spec fn spawn_point(anchor: Vector, distance: int) -> Vector {
    anchor.moved_by(Vector { x: distance, y: distance })
}

/// The enemy that a firing of the enemy timer brings, from a drawn distance
/// and a drawn radius.  A draw outside its range counts as the nearest end
/// of the range: distances run from `enemy_spawn_min` to `enemy_spawn_max`,
/// radii from `enemy_radius_min` to just below `enemy_radius_max`.
pub open spec fn new_enemy(anchor: Vector, distance: int, radius: int, config: Config) -> EnemyModel {
    EnemyModel::at(
        spawn_point(
            anchor,
            clamp_between(distance, config.enemy_spawn_min as int, config.enemy_spawn_max as int),
        ),
        clamp_between(radius, config.enemy_radius_min as int, config.enemy_radius_max - 1),
    )
}

/// The piece of food that a firing of the food timer brings, from a drawn
/// distance.  A draw outside the range from `food_spawn_min` to
/// `food_spawn_max` counts as the nearest end of the range.
pub open spec fn new_food(anchor: Vector, distance: int, config: Config) -> FoodModel {
    FoodModel {
        position: spawn_point(
            anchor,
            clamp_between(distance, config.food_spawn_min as int, config.food_spawn_max as int),
        ),
        radius: config.food_radius as int,
    }
}

/// Whether an enemy is kept: it is no farther than `cull_radius` from the
/// anchor.
pub open spec fn within_cull(anchor: Vector, cull_radius: int) -> spec_fn(EnemyModel) -> bool {
    |e: EnemyModel| !e.position.farther_than(anchor, cull_radius)
}

/// Whether a piece of food is kept: no point of the rope touches it.
pub open spec fn untouched(points: Seq<Vector>, thickness: int) -> spec_fn(FoodModel) -> bool {
    |f: FoodModel| !f.eaten_by(points, thickness)
}

/// The enemies that are no farther than `cull_radius` from the anchor, in
/// their old order.
pub open spec fn culled(enemies: Seq<EnemyModel>, anchor: Vector, cull_radius: int) -> Seq<
    EnemyModel,
> {
    enemies.filter(within_cull(anchor, cull_radius))
}

/// The pieces of food that no point of the rope touches, in their old
/// order.
pub open spec fn uneaten(food: Seq<FoodModel>, points: Seq<Vector>, thickness: int) -> Seq<
    FoodModel,
> {
    food.filter(untouched(points, thickness))
}

/// The enemies after the spawn policy has run: if the timer fires when
/// `delta` has passed, the newcomer joins at the end; then all that are
/// farther than the cull radius from the anchor leave.
pub open spec fn enemies_after_spawn(
    enemies: Seq<EnemyModel>,
    timer: TimerModel,
    delta: nat,
    anchor: Vector,
    distance: int,
    radius: int,
    config: Config,
) -> Seq<EnemyModel> {
    let grown = if timer.fires(delta) {
        enemies.push(new_enemy(anchor, distance, radius, config))
    } else {
        enemies
    };
    culled(grown, anchor, config.cull_radius as int)
}

/// The food after the spawn policy has run: if the timer fires when `delta`
/// has passed, the new piece joins at the end; then all that the rope
/// touches leave.
pub open spec fn food_after_spawn(
    food: Seq<FoodModel>,
    timer: TimerModel,
    delta: nat,
    points: Seq<Vector>,
    thickness: int,
    distance: int,
    config: Config,
) -> Seq<FoodModel> {
    let grown = if timer.fires(delta) {
        food.push(new_food(points[0], distance, config))
    } else {
        food
    };
    uneaten(grown, points, thickness)
}

/// The number between `low` and `high` nearest to `v`.
pub fn clamp_into(v: i64, low: i64, high: i64) -> (r: i64)
    requires
        low <= high,
    ensures
        r == clamp_between(v as int, low as int, high as int),
        low <= r <= high,
{
    if v < low {
        low
    } else if v > high {
        high
    } else {
        v
    }
}

/// The point off `anchor`, a point of the world, by `distance` on both
/// axes, kept inside the world.
pub fn spawn_position(anchor: Vec2, distance: i64) -> (p: Vec2)
    requires
        anchor@.in_world(),
    ensures
        p@ == spawn_point(anchor@, distance as int),
        p@.in_world(),
{
    let x: i64 = crate::fixed::clamp_to_world(anchor.x as i128 + distance as i128);
    let y: i64 = crate::fixed::clamp_to_world(anchor.y as i128 + distance as i128);
    Vec2 { x, y }
}

/// Removes every enemy that is farther than `cull_radius` from the point of
/// the world `anchor`.  The others keep their order.
pub fn cull_enemies(enemies: &mut Vec<Enemy>, anchor: Vec2, cull_radius: i64)
    requires
        all_enemies_wf(enemy_models(old(enemies)@)),
        anchor@.in_world(),
    ensures
        all_enemies_wf(enemy_models(final(enemies)@)),
        enemy_models(final(enemies)@) == culled(
            enemy_models(old(enemies)@),
            anchor@,
            cull_radius as int,
        ),
{
    let ghost before = enemy_models(enemies@);
    let ghost keep = within_cull(anchor@, cull_radius as int);
    let count: usize = enemies.len();
    let mut kept: Vec<Enemy> = Vec::new();
    let mut i: usize = 0;
    proof {
        reveal(Seq::filter);
        assert(before.take(0).filter(keep) =~= Seq::<EnemyModel>::empty());
    }
    while i < count
        invariant
            0 <= i <= count,
            enemies@.len() == count,
            before == enemy_models(enemies@),
            all_enemies_wf(before),
            anchor@.in_world(),
            keep == within_cull(anchor@, cull_radius as int),
            all_enemies_wf(enemy_models(kept@)),
            enemy_models(kept@) == before.take(i as int).filter(keep),
        decreases count - i,
    {
        let enemy: Enemy = enemies[i];
        let ghost kept_before = enemy_models(kept@);
        proof {
            assert(enemy@ == before[i as int]);
            assert(before[i as int].wf());
            reveal(Seq::filter);
            assert(before.take(i + 1).drop_last() =~= before.take(i as int));
            assert(before.take(i + 1).last() == before[i as int]);
        }
        if !enemy.position().farther_than(anchor, cull_radius) {
            kept.push(enemy);
            proof {
                assert(enemy_models(kept@) =~= kept_before.push(enemy@));
            }
        }
        i += 1;
    }
    proof {
        assert(before.take(count as int) =~= before);
    }
    *enemies = kept;
}

/// Removes every piece of food that a point of the rope touches.  The
/// others keep their order.
pub fn eat_food(food: &mut Vec<Food>, rope: &Rope)
    requires
        all_food_wf(food_models(old(food)@)),
        rope.wf(),
    ensures
        all_food_wf(food_models(final(food)@)),
        food_models(final(food)@) == uneaten(
            food_models(old(food)@),
            rope@.points,
            rope@.thickness,
        ),
{
    let ghost before = food_models(food@);
    let ghost keep = untouched(rope@.points, rope@.thickness);
    let count: usize = food.len();
    let mut kept: Vec<Food> = Vec::new();
    let mut i: usize = 0;
    proof {
        reveal(Seq::filter);
        assert(before.take(0).filter(keep) =~= Seq::<FoodModel>::empty());
    }
    while i < count
        invariant
            0 <= i <= count,
            food@.len() == count,
            before == food_models(food@),
            all_food_wf(before),
            rope.wf(),
            keep == untouched(rope@.points, rope@.thickness),
            all_food_wf(food_models(kept@)),
            food_models(kept@) == before.take(i as int).filter(keep),
        decreases count - i,
    {
        let piece: Food = food[i];
        let ghost kept_before = food_models(kept@);
        proof {
            assert(piece@ == before[i as int]);
            assert(before[i as int].wf());
            reveal(Seq::filter);
            assert(before.take(i + 1).drop_last() =~= before.take(i as int));
            assert(before.take(i + 1).last() == before[i as int]);
        }
        if !piece.eaten_by(rope) {
            kept.push(piece);
            proof {
                assert(food_models(kept@) =~= kept_before.push(piece@));
            }
        }
        i += 1;
    }
    proof {
        assert(before.take(count as int) =~= before);
    }
    *food = kept;
}

/// The spawn policy of the enemies, from given draws: lets `delta` pass on
/// the timer; if it fires, an enemy appears off the rope's anchor by
/// `distance` on both axes, with the radius `radius`; then every enemy
/// farther than the cull radius from the anchor is removed.  A draw outside
/// its range counts as the nearest end of the range.
pub fn spawn_enemies_with(
    rope: &Rope,
    enemies: &mut Vec<Enemy>,
    timer: &mut SpawnTimer,
    delta: u64,
    config: &Config,
    distance: i64,
    radius: i64,
)
    requires
        rope.wf(),
        all_enemies_wf(enemy_models(old(enemies)@)),
        old(timer).wf(),
        config.valid(),
    ensures
        final(timer).wf(),
        final(timer)@ == old(timer)@.ticked(delta as nat),
        all_enemies_wf(enemy_models(final(enemies)@)),
        enemy_models(final(enemies)@) == enemies_after_spawn(
            enemy_models(old(enemies)@),
            old(timer)@,
            delta as nat,
            rope@.anchor(),
            distance as int,
            radius as int,
            *config,
        ),
{
    let anchor: Vec2 = rope.anchor();
    if timer.tick(delta) {
        add_enemy(enemies, anchor, config, distance, radius);
    }
    cull_enemies(enemies, anchor, config.cull_radius);
}

/// Puts the enemy that the draws give at the end of the enemies.
fn add_enemy(enemies: &mut Vec<Enemy>, anchor: Vec2, config: &Config, distance: i64, radius: i64)
    requires
        all_enemies_wf(enemy_models(old(enemies)@)),
        anchor@.in_world(),
        config.valid(),
    ensures
        all_enemies_wf(enemy_models(final(enemies)@)),
        enemy_models(final(enemies)@) == enemy_models(old(enemies)@).push(
            new_enemy(anchor@, distance as int, radius as int, *config),
        ),
{
    let ghost before = enemy_models(enemies@);
    let distance: i64 = clamp_into(distance, config.enemy_spawn_min, config.enemy_spawn_max);
    let radius: i64 = clamp_into(radius, config.enemy_radius_min, config.enemy_radius_max - 1);
    let made: Option<Enemy> = Enemy::with_radius(spawn_position(anchor, distance), radius);
    if let Some(enemy) = made {
        enemies.push(enemy);
        proof {
            assert(enemy_models(enemies@) =~= before.push(enemy@));
        }
    }
}

/// The spawn policy of the enemies: as [`spawn_enemies_with`], with a
/// distance and a radius drawn at random from their ranges when the timer
/// fires.
pub fn spawn_enemies(
    rope: &Rope,
    enemies: &mut Vec<Enemy>,
    timer: &mut SpawnTimer,
    delta: u64,
    config: &Config,
)
    requires
        rope.wf(),
        all_enemies_wf(enemy_models(old(enemies)@)),
        old(timer).wf(),
        config.valid(),
    ensures
        final(timer).wf(),
        final(timer)@ == old(timer)@.ticked(delta as nat),
        all_enemies_wf(enemy_models(final(enemies)@)),
        exists|distance: int, radius: int|
            {
                &&& config.enemy_spawn_min <= distance <= config.enemy_spawn_max
                &&& config.enemy_radius_min <= radius < config.enemy_radius_max
                &&& enemy_models(final(enemies)@) == #[trigger] enemies_after_spawn(
                    enemy_models(old(enemies)@),
                    old(timer)@,
                    delta as nat,
                    rope@.anchor(),
                    distance,
                    radius,
                    *config,
                )
            },
{
    let ghost before = enemy_models(enemies@);
    let ghost timer_before = timer@;
    let anchor: Vec2 = rope.anchor();
    let mut distance: i64 = config.enemy_spawn_min;
    let mut radius: i64 = config.enemy_radius_min;
    if timer.tick(delta) {
        distance = random_between(config.enemy_spawn_min, config.enemy_spawn_max);
        radius = random_between(config.enemy_radius_min, config.enemy_radius_max - 1);
        add_enemy(enemies, anchor, config, distance, radius);
    }
    cull_enemies(enemies, anchor, config.cull_radius);
    proof {
        assert(enemy_models(enemies@) == enemies_after_spawn(
            before,
            timer_before,
            delta as nat,
            rope@.anchor(),
            distance as int,
            radius as int,
            *config,
        ));
    }
}

/// Puts the piece of food that the draw gives at the end of the food.
fn add_food(food: &mut Vec<Food>, anchor: Vec2, config: &Config, distance: i64)
    requires
        all_food_wf(food_models(old(food)@)),
        anchor@.in_world(),
        config.valid(),
    ensures
        all_food_wf(food_models(final(food)@)),
        food_models(final(food)@) == food_models(old(food)@).push(
            new_food(anchor@, distance as int, *config),
        ),
{
    let ghost before = food_models(food@);
    let distance: i64 = clamp_into(distance, config.food_spawn_min, config.food_spawn_max);
    let made: Option<Food> = Food::with_radius(spawn_position(anchor, distance), config.food_radius);
    if let Some(piece) = made {
        food.push(piece);
        proof {
            assert(food_models(food@) =~= before.push(piece@));
        }
    }
}

/// The spawn policy of the food, from a given draw: lets `delta` pass on
/// the timer; if it fires, a piece of food appears off the rope's anchor by
/// `distance` on both axes; then every piece that a point of the rope
/// touches is removed.  A draw outside its range counts as the nearest end
/// of the range.
pub fn spawn_food_with(
    rope: &Rope,
    food: &mut Vec<Food>,
    timer: &mut SpawnTimer,
    delta: u64,
    config: &Config,
    distance: i64,
)
    requires
        rope.wf(),
        all_food_wf(food_models(old(food)@)),
        old(timer).wf(),
        config.valid(),
    ensures
        final(timer).wf(),
        final(timer)@ == old(timer)@.ticked(delta as nat),
        all_food_wf(food_models(final(food)@)),
        food_models(final(food)@) == food_after_spawn(
            food_models(old(food)@),
            old(timer)@,
            delta as nat,
            rope@.points,
            rope@.thickness,
            distance as int,
            *config,
        ),
{
    let anchor: Vec2 = rope.anchor();
    if timer.tick(delta) {
        add_food(food, anchor, config, distance);
    }
    eat_food(food, rope);
}

/// The spawn policy of the food: as [`spawn_food_with`], with a distance
/// drawn at random from its range when the timer fires.
pub fn spawn_food(
    rope: &Rope,
    food: &mut Vec<Food>,
    timer: &mut SpawnTimer,
    delta: u64,
    config: &Config,
)
    requires
        rope.wf(),
        all_food_wf(food_models(old(food)@)),
        old(timer).wf(),
        config.valid(),
    ensures
        final(timer).wf(),
        final(timer)@ == old(timer)@.ticked(delta as nat),
        all_food_wf(food_models(final(food)@)),
        exists|distance: int|
            {
                &&& config.food_spawn_min <= distance <= config.food_spawn_max
                &&& food_models(final(food)@) == #[trigger] food_after_spawn(
                    food_models(old(food)@),
                    old(timer)@,
                    delta as nat,
                    rope@.points,
                    rope@.thickness,
                    distance,
                    *config,
                )
            },
{
    let ghost before = food_models(food@);
    let ghost timer_before = timer@;
    let anchor: Vec2 = rope.anchor();
    let mut distance: i64 = config.food_spawn_min;
    if timer.tick(delta) {
        distance = random_between(config.food_spawn_min, config.food_spawn_max);
        add_food(food, anchor, config, distance);
    }
    eat_food(food, rope);
    proof {
        assert(food_models(food@) == food_after_spawn(
            before,
            timer_before,
            delta as nat,
            rope@.points,
            rope@.thickness,
            distance as int,
            *config,
        ));
    }
}

} // verus!
