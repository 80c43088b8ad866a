//! Enemies: discs that chase a target and are pushed out of what they
//! overlap.

use vstd::prelude::*;
use crate::config::Config;
use crate::fixed::{ONE, WORLD_LIMIT};
use crate::random::random_between;
use crate::vec2::{Vec2, Vector};

verus! {

/// The mathematical model of an [`Enemy`].
pub struct EnemyModel {
    /// Where the enemy is.
    pub position: Vector,
    /// Where it was one step ago.
    pub position_prev: Vector,
    /// Its radius.
    pub radius: int,
}

impl EnemyModel {
    /// The invariant of an enemy: both positions within the world, and a
    /// radius that is not negative and no larger than the world.
    pub open spec fn wf(self) -> bool {
        &&& self.position.in_world()
        &&& self.position_prev.in_world()
        &&& 0 <= self.radius <= WORLD_LIMIT
    }

    /// An enemy at rest at `position`.
    pub open spec fn at(position: Vector, radius: int) -> EnemyModel {
        EnemyModel { position, position_prev: position, radius }
    }

    /// The enemy with another position.
    pub open spec fn moved_to(self, position: Vector) -> EnemyModel {
        EnemyModel { position, ..self }
    }

    /// The enemy differs from `other` in its position at most: it has the
    /// same radius and was in the same place one step ago.
    pub open spec fn only_moved(self, other: EnemyModel) -> bool {
        self.radius == other.radius && self.position_prev == other.position_prev
    }

    /// The enemy one seek step later: it goes on by its velocity divided by
    /// `damping`, plus a pull of length `acceleration` toward `target`, and
    /// remembers where it was.  An enemy on its target is not pulled.
    pub open spec fn seek_step(self, target: Vector, acceleration: int, damping: int) -> EnemyModel {
        let velocity = self.position.minus(self.position_prev).scaled(ONE as int, damping);
        let pull = target.minus(self.position).along(acceleration, 1);
        EnemyModel {
            position: self.position.moved_by(velocity.plus(pull)),
            position_prev: self.position,
            radius: self.radius,
        }
    }

    /// The enemy `steps` seek steps later.
    pub open spec fn sought(
        self,
        target: Vector,
        acceleration: int,
        damping: int,
        steps: nat,
    ) -> EnemyModel
        decreases steps,
    {
        if steps == 0 {
            self
        } else {
            self.sought(target, acceleration, damping, (steps - 1) as nat).seek_step(
                target,
                acceleration,
                damping,
            )
        }
    }

    /// The enemy after it has been pushed out of the disc of radius `reach`
    /// around `point`: if it is nearer than `reach`, it is moved straight
    /// away from `point` by what is missing.  Its previous position stays.
    /// An enemy exactly on `point` has no direction to go and stays.
    pub open spec fn pushed_from(self, point: Vector, reach: int) -> EnemyModel {
        let delta = self.position.minus(point);
        if self.position.closer_than(point, reach) {
            self.moved_to(self.position.moved_by(delta.along(reach - delta.norm(), 1)))
        } else {
            self
        }
    }
}

/// Seeking never changes the radius of an enemy.
pub proof fn lemma_sought_keeps_radius(
    e: EnemyModel,
    target: Vector,
    acceleration: int,
    damping: int,
    steps: nat,
)
    ensures
        e.sought(target, acceleration, damping, steps).radius == e.radius,
    decreases steps,
{
    if steps > 0 {
        lemma_sought_keeps_radius(e, target, acceleration, damping, (steps - 1) as nat);
    }
}

/// What the first of two overlapping enemies is moved by, and the second
/// by its opposite: half of what is missing between them, along the line
/// from the second to the first.  Enemies that do not overlap, or lie on the
/// same point, are not moved.
pub open spec fn pair_correction(a: EnemyModel, b: EnemyModel) -> Vector {
    let delta = a.position.minus(b.position);
    if a.position.closer_than(b.position, a.radius + b.radius) {
        delta.along(a.radius + b.radius - delta.norm(), 2)
    } else {
        Vector::zero()
    }
}

/// Two enemies after their overlap has been resolved.
pub open spec fn resolved_pair(a: EnemyModel, b: EnemyModel) -> (EnemyModel, EnemyModel) {
    let c = pair_correction(a, b);
    (a.moved_to(a.position.moved_by(c)), b.moved_to(b.position.moved_by(c.negated())))
}

/// An enemy.
#[derive(Clone, Copy, Debug)]
pub struct Enemy {
    position: Vec2,
    position_prev: Vec2,
    radius: i64,
}

impl View for Enemy {
    type V = EnemyModel;

    closed spec fn view(&self) -> EnemyModel {
        EnemyModel {
            position: self.position@,
            position_prev: self.position_prev@,
            radius: self.radius as int,
        }
    }
}

impl Enemy {
    /// The invariant of an enemy.
    pub open spec fn wf(&self) -> bool {
        self@.wf()
    }

    /// An enemy at rest at the point of the world nearest to `position`, or
    /// nothing if the radius is negative or larger than the world.
    pub fn with_radius(position: Vec2, radius: i64) -> (r: Option<Enemy>)
        ensures
            r is Some <==> 0 <= radius <= WORLD_LIMIT,
            r is Some ==> r->Some_0.wf() && r->Some_0@ == EnemyModel::at(
                position@.clamped(),
                radius as int,
            ),
    {
        if 0 <= radius && radius <= WORLD_LIMIT {
            let position: Vec2 = position.clamped();
            Some(Enemy { position, position_prev: position, radius })
        } else {
            None
        }
    }

    /// An enemy at rest at the point of the world nearest to `position`,
    /// with a radius drawn at random from `config.enemy_radius_min` up to,
    /// but not including, `config.enemy_radius_max`.
    pub fn new(position: Vec2, config: &Config) -> (e: Enemy)
        requires
            config.valid(),
        ensures
            e.wf(),
            config.enemy_radius_min <= e@.radius < config.enemy_radius_max,
            e@ == EnemyModel::at(position@.clamped(), e@.radius),
    {
        let radius: i64 = random_between(config.enemy_radius_min, config.enemy_radius_max - 1);
        let position: Vec2 = position.clamped();
        Enemy { position, position_prev: position, radius }
    }

    /// Where the enemy is.
    pub fn position(&self) -> (p: Vec2)
        ensures
            p@ == self@.position,
    {
        self.position
    }

    /// Where the enemy was one step ago.
    pub fn position_prev(&self) -> (p: Vec2)
        ensures
            p@ == self@.position_prev,
    {
        self.position_prev
    }

    /// The radius.
    pub fn radius(&self) -> (r: i64)
        ensures
            r == self@.radius,
    {
        self.radius
    }

    /// One seek step toward the point of the world nearest to `target`.
    pub fn seek_step(&mut self, target: Vec2, acceleration: i64, damping: i64)
        requires
            old(self).wf(),
            -WORLD_LIMIT <= acceleration <= WORLD_LIMIT,
            0 < damping <= WORLD_LIMIT,
        ensures
            final(self).wf(),
            final(self)@ == old(self)@.seek_step(
                target@.clamped(),
                acceleration as int,
                damping as int,
            ),
    {
        let target: Vec2 = target.clamped();
        let velocity = self.position.since(self.position_prev).scaled(ONE as i128, damping as i128);
        let pull = target.since(self.position).along(acceleration as i128, 1);
        let next: Vec2 = self.position.moved_by(velocity.plus(pull));
        self.position_prev = self.position;
        self.position = next;
    }

    /// One tick: `config.substeps` seek steps toward the point of the world
    /// nearest to `target`, each with a pull of `config.seek_acceleration`.
    /// The direction of the pull is taken anew from where the enemy stands
    /// at each step.
    pub fn update(&mut self, target: Vec2, config: &Config)
        requires
            old(self).wf(),
            config.valid(),
        ensures
            final(self).wf(),
            final(self)@ == old(self)@.sought(
                target@.clamped(),
                config.seek_acceleration as int,
                config.damping as int,
                config.substeps as nat,
            ),
            final(self)@.radius == old(self)@.radius,
    {
        let ghost before = self@;
        proof {
            lemma_sought_keeps_radius(
                before,
                target@.clamped(),
                config.seek_acceleration as int,
                config.damping as int,
                config.substeps as nat,
            );
        }
        let mut step: u32 = 0;
        while step < config.substeps
            invariant
                0 <= step <= config.substeps,
                config.valid(),
                self.wf(),
                self@ == before.sought(
                    target@.clamped(),
                    config.seek_acceleration as int,
                    config.damping as int,
                    step as nat,
                ),
            decreases config.substeps - step,
        {
            self.seek_step(target, config.seek_acceleration, config.damping);
            step += 1;
        }
    }

    /// Pushes the enemy out of the disc of radius `reach` around `point`, a
    /// point of the world.
    pub fn push_from(&mut self, point: Vec2, reach: i64)
        requires
            old(self).wf(),
            point@.in_world(),
            0 <= reach <= 2 * WORLD_LIMIT,
        ensures
            final(self).wf(),
            final(self)@ == old(self)@.pushed_from(point@, reach as int),
            final(self)@.only_moved(old(self)@),
    {
        if self.position.closer_than(point, reach) {
            let delta = self.position.since(point);
            let distance: i64 = delta.norm();
            self.position = self.position.moved_by(
                delta.along(reach as i128 - distance as i128, 1),
            );
        }
    }

    /// Resolves the overlap of two enemies: each is moved away from the
    /// other by half of what is missing between them.
    pub fn resolve_pair(a: &mut Enemy, b: &mut Enemy)
        requires
            old(a).wf(),
            old(b).wf(),
        ensures
            final(a).wf(),
            final(b).wf(),
            (final(a)@, final(b)@) == resolved_pair(old(a)@, old(b)@),
            final(a)@.only_moved(old(a)@),
            final(b)@.only_moved(old(b)@),
    {
        let reach: i64 = a.radius + b.radius;
        if a.position.closer_than(b.position, reach) {
            let delta = a.position.since(b.position);
            let distance: i64 = delta.norm();
            let c = delta.along(reach as i128 - distance as i128, 2);
            a.position = a.position.moved_by(c);
            b.position = b.position.moved_by(c.negated());
        }
    }
}

/// The enemies that a sequence of stored enemies stands for.
pub open spec fn enemy_models(enemies: Seq<Enemy>) -> Seq<EnemyModel> {
    enemies.map_values(|e: Enemy| e@)
}

/// Every enemy of the sequence meets the invariant of an enemy.
pub open spec fn all_enemies_wf(enemies: Seq<EnemyModel>) -> bool {
    forall|i: int| 0 <= i < enemies.len() ==> (#[trigger] enemies[i]).wf()
}

/// The enemies after each has made `steps` seek steps toward `target`.
pub open spec fn chased(
    enemies: Seq<EnemyModel>,
    target: Vector,
    acceleration: int,
    damping: int,
    steps: nat,
) -> Seq<EnemyModel> {
    enemies.map_values(|e: EnemyModel| e.sought(target, acceleration, damping, steps))
}

/// One tick of every enemy: each makes `config.substeps` seek steps toward
/// the point of the world nearest to `target`.
pub fn seek_all(enemies: &mut Vec<Enemy>, target: Vec2, config: &Config)
    requires
        all_enemies_wf(enemy_models(old(enemies)@)),
        config.valid(),
    ensures
        all_enemies_wf(enemy_models(final(enemies)@)),
        enemy_models(final(enemies)@) == chased(
            enemy_models(old(enemies)@),
            target@.clamped(),
            config.seek_acceleration as int,
            config.damping as int,
            config.substeps as nat,
        ),
        final(enemies)@.len() == old(enemies)@.len(),
        forall|j: int|
            0 <= j < old(enemies)@.len() ==> (#[trigger] enemy_models(final(enemies)@)[j]).radius
                == enemy_models(old(enemies)@)[j].radius,
{
    let ghost before = enemy_models(enemies@);
    let ghost after = chased(
        before,
        target@.clamped(),
        config.seek_acceleration as int,
        config.damping as int,
        config.substeps as nat,
    );
    let count: usize = enemies.len();
    let mut i: usize = 0;
    while i < count
        invariant
            0 <= i <= count,
            enemies@.len() == count,
            before.len() == count,
            config.valid(),
            after == chased(
                before,
                target@.clamped(),
                config.seek_acceleration as int,
                config.damping as int,
                config.substeps as nat,
            ),
            all_enemies_wf(enemy_models(enemies@)),
            forall|j: int| 0 <= j < i ==> (#[trigger] enemy_models(enemies@)[j]) == after[j],
            forall|j: int| i <= j < count ==> (#[trigger] enemy_models(enemies@)[j]) == before[j],
        decreases count - i,
    {
        let ghost models_before = enemy_models(enemies@);
        let mut enemy: Enemy = enemies[i];
        assert(enemy@ == models_before[i as int]);
        assert(models_before[i as int].wf());
        enemy.update(target, config);
        enemies[i] = enemy;
        proof {
            assert(enemy_models(enemies@) =~= models_before.update(i as int, enemy@));
        }
        i += 1;
    }
    proof {
        assert(enemy_models(enemies@) =~= after);
        assert forall|j: int| 0 <= j < count implies (#[trigger] enemy_models(
            enemies@,
        )[j]).radius == before[j].radius by {
            lemma_sought_keeps_radius(
                before[j],
                target@.clamped(),
                config.seek_acceleration as int,
                config.damping as int,
                config.substeps as nat,
            );
        }
    }
}

} // verus!
