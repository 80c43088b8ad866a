//! Laws of culling and eating.

use vstd::prelude::*;
use crate::enemy::EnemyModel;
use crate::food::FoodModel;
use crate::spawn::{culled, enemies_after_spawn, uneaten, untouched, within_cull};
use crate::timer::TimerModel;
use crate::config::Config;
use crate::vec2::Vector;

verus! {

/// What is left of a sequence by a filter are the members of the sequence
/// that pass it.
pub proof fn lemma_filter_members<A>(s: Seq<A>, pred: spec_fn(A) -> bool, x: A)
    ensures
        s.filter(pred).contains(x) <==> s.contains(x) && pred(x),
    decreases s.len(),
{
    reveal(Seq::filter);
    if s.len() > 0 {
        let rest = s.drop_last();
        lemma_filter_members(rest, pred, x);
        let out = s.filter(pred);
        if s.contains(x) {
            let i = choose|i: int| 0 <= i < s.len() && s[i] == x;
            if i < s.len() - 1 {
                assert(rest[i] == x);
                assert(rest.contains(x));
            } else {
                assert(s.last() == x);
            }
        }
        if rest.contains(x) {
            let i = choose|i: int| 0 <= i < rest.len() && rest[i] == x;
            assert(s[i] == x);
        }
        if pred(s.last()) {
            let kept = rest.filter(pred);
            assert(out == kept.push(s.last()));
            assert(out[out.len() - 1] == s.last());
            if kept.contains(x) {
                let i = choose|i: int| 0 <= i < kept.len() && kept[i] == x;
                assert(out[i] == x);
            }
            if out.contains(x) {
                let i = choose|i: int| 0 <= i < out.len() && out[i] == x;
                if i < kept.len() {
                    assert(kept[i] == x);
                }
            }
        }
        assert(s[s.len() - 1] == s.last());
    }
}

/// Culling removes every enemy that is farther than the cull radius from
/// the anchor, however it came there, and no other.
pub proof fn lemma_cull_removes_far(
    enemies: Seq<EnemyModel>,
    anchor: Vector,
    cull_radius: int,
    e: EnemyModel,
)
    ensures
        culled(enemies, anchor, cull_radius).contains(e) <==> enemies.contains(e)
            && !e.position.farther_than(anchor, cull_radius),
{
    lemma_filter_members(enemies, within_cull(anchor, cull_radius), e);
}

/// An enemy that appears farther than the cull radius from the anchor is
/// gone by the end of the same run of the spawn policy.
pub proof fn lemma_far_spawn_is_culled(
    enemies: Seq<EnemyModel>,
    timer: TimerModel,
    delta: nat,
    anchor: Vector,
    distance: int,
    radius: int,
    config: Config,
    e: EnemyModel,
)
    requires
        e.position.farther_than(anchor, config.cull_radius as int),
    ensures
        !enemies_after_spawn(enemies, timer, delta, anchor, distance, radius, config).contains(e),
{
    let grown = if timer.fires(delta) {
        enemies.push(crate::spawn::new_enemy(anchor, distance, radius, config))
    } else {
        enemies
    };
    lemma_cull_removes_far(grown, anchor, config.cull_radius as int, e);
}

/// Eating removes every piece of food that a point of the rope touches,
/// and no other.
pub proof fn lemma_eating_removes_touched(
    food: Seq<FoodModel>,
    points: Seq<Vector>,
    thickness: int,
    f: FoodModel,
)
    ensures
        uneaten(food, points, thickness).contains(f) <==> food.contains(f) && !f.eaten_by(
            points,
            thickness,
        ),
{
    lemma_filter_members(food, untouched(points, thickness), f);
}

/// A piece of food is eaten exactly when the square of its distance to
/// some point of the rope is below the square of the rope's thickness plus
/// its radius: a piece at exactly that distance stays.
pub proof fn lemma_eaten_boundary(f: FoodModel, points: Seq<Vector>, thickness: int)
    requires
        thickness + f.radius > 0,
    ensures
        f.eaten_by(points, thickness) <==> exists|i: int|
            0 <= i < points.len() && (#[trigger] f.position.minus(points[i])).norm_sq() < (
            thickness + f.radius) * (thickness + f.radius),
{
    if f.eaten_by(points, thickness) {
        let i = choose|i: int|
            0 <= i < points.len() && #[trigger] f.touched_by(points[i], thickness);
        assert(f.position.minus(points[i]).norm_sq() < (thickness + f.radius) * (thickness
            + f.radius));
    }
    if exists|i: int|
        0 <= i < points.len() && (#[trigger] f.position.minus(points[i])).norm_sq() < (thickness
            + f.radius) * (thickness + f.radius) {
        let i = choose|i: int|
            0 <= i < points.len() && (#[trigger] f.position.minus(points[i])).norm_sq() < (
            thickness + f.radius) * (thickness + f.radius);
        assert(f.touched_by(points[i], thickness));
    }
}

} // verus!
