//! Laws of the two collision rules.

use vstd::prelude::*;
use crate::enemy::{pair_correction, resolved_pair, EnemyModel};
use crate::fixed::{
    lemma_floor_sqrt_below, lemma_floor_sqrt_exists, lemma_trunc_div_error, lemma_trunc_div_neg,
};
use crate::vec2::{lemma_norm_sq_bound, Vector};

verus! {

/// A displacement and its opposite have the same length.
pub proof fn lemma_negated_norm(d: Vector)
    ensures
        d.negated().norm_sq() == d.norm_sq(),
        d.negated().norm() == d.norm(),
{
    let (x, y) = (d.x, d.y);
    assert((-x) * (-x) == x * x) by (nonlinear_arith);
    assert((-y) * (-y) == y * y) by (nonlinear_arith);
}

/// Scaling the opposite displacement gives the opposite of the scaled
/// displacement: rounding is toward zero on both sides.
pub proof fn lemma_along_negated(d: Vector, magnitude: int, divisor: int)
    requires
        divisor > 0,
    ensures
        d.negated().along(magnitude, divisor) == d.along(magnitude, divisor).negated(),
{
    lemma_negated_norm(d);
    let n = d.norm();
    if n != 0 {
        assert(d.norm_sq() >= 0) by (nonlinear_arith)
            requires
                d.norm_sq() == d.x * d.x + d.y * d.y,
        ;
        lemma_floor_sqrt_exists(d.norm_sq());
        let den = n * divisor;
        assert(den > 0) by (nonlinear_arith)
            requires
                den == n * divisor,
                n > 0,
                divisor > 0,
        ;
        assert((-d.x) * magnitude == -(d.x * magnitude)) by (nonlinear_arith);
        assert((-d.y) * magnitude == -(d.y * magnitude)) by (nonlinear_arith);
        lemma_trunc_div_neg(d.x * magnitude, den);
        lemma_trunc_div_neg(d.y * magnitude, den);
    }
}

/// The zero displacement, which has no direction, is scaled to zero.
pub proof fn lemma_along_zero(magnitude: int, divisor: int)
    ensures
        Vector::zero().along(magnitude, divisor) == Vector::zero(),
{
    lemma_norm_sq_bound(Vector::zero(), 0);
}

/// Two points are closer than a reach that is not negative exactly when
/// their distance, rounded down, is below it.
pub proof fn lemma_closer_than_by_norm(p: Vector, q: Vector, reach: int)
    requires
        reach >= 0,
    ensures
        p.closer_than(q, reach) <==> p.minus(q).norm() < reach,
{
    let d = p.minus(q);
    assert(d.norm_sq() >= 0) by (nonlinear_arith)
        requires
            d.norm_sq() == d.x * d.x + d.y * d.y,
    ;
    lemma_floor_sqrt_below(d.norm_sq(), reach);
    if reach == 0 {
        assert(reach * reach == 0) by (nonlinear_arith)
            requires
                reach == 0,
        ;
    }
}

/// Resolving a pair of enemies does not depend on which of the two is
/// named first.
pub proof fn lemma_pair_symmetric(a: EnemyModel, b: EnemyModel)
    ensures
        pair_correction(b, a) == pair_correction(a, b).negated(),
        resolved_pair(b, a) == (resolved_pair(a, b).1, resolved_pair(a, b).0),
{
    let delta = a.position.minus(b.position);
    assert(b.position.minus(a.position) == delta.negated());
    lemma_negated_norm(delta);
    lemma_along_negated(delta, a.radius + b.radius - delta.norm(), 2);
    let c = pair_correction(a, b);
    assert(c.negated().negated() == c);
}

/// Unless one of the two is stopped at the border of the world, resolving a
/// pair of enemies moves them by opposite steps: the point midway between
/// them stays where it was.
pub proof fn lemma_pair_keeps_midpoint(a: EnemyModel, b: EnemyModel)
    requires
        a.position.plus(pair_correction(a, b)).in_world(),
        b.position.plus(pair_correction(a, b).negated()).in_world(),
    ensures
        resolved_pair(a, b).0.position.plus(resolved_pair(a, b).1.position) == a.position.plus(
            b.position,
        ),
{
}

/// Unless one of the two is stopped at the border of the world, two
/// overlapping enemies that are not on the same point end up apart by the
/// sum of their radii: their displacement is the one before, stretched by
/// that sum over the distance before, to within two micro-units on each
/// axis.
pub proof fn lemma_pair_separates(a: EnemyModel, b: EnemyModel)
    requires
        a.position.closer_than(b.position, a.radius + b.radius),
        a.position != b.position,
        a.position.plus(pair_correction(a, b)).in_world(),
        b.position.plus(pair_correction(a, b).negated()).in_world(),
    ensures
        ({
            let before = a.position.minus(b.position);
            let after = resolved_pair(a, b).0.position.minus(resolved_pair(a, b).1.position);
            let distance = before.norm();
            let reach = a.radius + b.radius;
            &&& distance > 0
            &&& -2 * distance < after.x * distance - before.x * reach < 2 * distance
            &&& -2 * distance < after.y * distance - before.y * reach < 2 * distance
        }),
{
    let before = a.position.minus(b.position);
    let d = before.norm();
    let reach = a.radius + b.radius;
    let m = if before.x >= 0 {
        before.x
    } else {
        -before.x
    } + if before.y >= 0 {
        before.y
    } else {
        -before.y
    };
    lemma_norm_sq_bound(before, m);
    let c = pair_correction(a, b);
    let den = d * 2;
    lemma_trunc_div_error(before.x * (reach - d), den);
    lemma_trunc_div_error(before.y * (reach - d), den);
    let after = resolved_pair(a, b).0.position.minus(resolved_pair(a, b).1.position);
    assert(after.x == before.x + 2 * c.x);
    assert(after.y == before.y + 2 * c.y);
    assert(after.x * d - before.x * reach == c.x * den - before.x * (reach - d))
        by (nonlinear_arith)
        requires
            after.x == before.x + 2 * c.x,
            den == d * 2,
    ;
    assert(after.y * d - before.y * reach == c.y * den - before.y * (reach - d))
        by (nonlinear_arith)
        requires
            after.y == before.y + 2 * c.y,
            den == d * 2,
    ;
}

/// Unless it is stopped at the border of the world, an enemy that overlaps
/// the disc around `point`, and is not on `point` itself, ends up at the
/// distance `reach` from it, in the direction it was in: its displacement
/// from `point` is the one before, stretched by `reach` over the distance
/// before, to within one micro-unit on each axis.
pub proof fn lemma_push_reaches(e: EnemyModel, point: Vector, reach: int)
    requires
        e.position.closer_than(point, reach),
        e.position != point,
        e.position.plus(
            e.position.minus(point).along(reach - e.position.minus(point).norm(), 1),
        ).in_world(),
    ensures
        ({
            let before = e.position.minus(point);
            let after = e.pushed_from(point, reach).position.minus(point);
            let distance = before.norm();
            &&& distance > 0
            &&& -distance < after.x * distance - before.x * reach < distance
            &&& -distance < after.y * distance - before.y * reach < distance
        }),
{
    let before = e.position.minus(point);
    let d = before.norm();
    let m = if before.x >= 0 {
        before.x
    } else {
        -before.x
    } + if before.y >= 0 {
        before.y
    } else {
        -before.y
    };
    lemma_norm_sq_bound(before, m);
    let den = d * 1;
    let c = before.along(reach - d, 1);
    lemma_trunc_div_error(before.x * (reach - d), den);
    lemma_trunc_div_error(before.y * (reach - d), den);
    let after = e.pushed_from(point, reach).position.minus(point);
    assert(after.x == before.x + c.x);
    assert(after.y == before.y + c.y);
    assert(after.x * d - before.x * reach == c.x * den - before.x * (reach - d))
        by (nonlinear_arith)
        requires
            after.x == before.x + c.x,
            den == d * 1,
    ;
    assert(after.y * d - before.y * reach == c.y * den - before.y * (reach - d))
        by (nonlinear_arith)
        requires
            after.y == before.y + c.y,
            den == d * 1,
    ;
}

/// An enemy that does not overlap the disc around `point` is left alone,
/// and so is one exactly on `point`, which has no direction to go.
pub proof fn lemma_push_leaves(e: EnemyModel, point: Vector, reach: int)
    requires
        e.wf(),
        !e.position.closer_than(point, reach) || e.position == point,
    ensures
        e.pushed_from(point, reach) == e,
{
    if e.position == point {
        assert(e.position.minus(point) == Vector::zero());
        lemma_along_zero(reach - Vector::zero().norm(), 1);
    }
}

} // verus!
