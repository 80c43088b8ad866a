//! Laws of the rope's relaxation.

use vstd::prelude::*;
use crate::fixed::{lemma_floor_sqrt_exists, lemma_trunc_div_error, trunc_div, ONE, WORLD_LIMIT};
use crate::rope::{
    all_in_world, correction, integrated_point, relaxed, relaxed_pair, relaxed_pairs, relaxed_pass,
    RopeModel,
};
use crate::vec2::{lemma_norm_sq_bound, Vector};

verus! {

/// The distance, rounded down, between point `i` and its successor.
pub open spec fn spacing(points: Seq<Vector>, i: int) -> int {
    points[i + 1].minus(points[i]).norm()
}

/// Every pair of neighbours is at the rest distance.
pub open spec fn at_rest(points: Seq<Vector>, segment_length: int) -> bool {
    forall|i: int| 0 <= i < points.len() - 1 ==> #[trigger] spacing(points, i) == segment_length
}

/// Two neighbours at the rest distance are not corrected.
pub proof fn lemma_no_correction_at_rest(a: Vector, b: Vector, segment_length: int, elasticity: int)
    requires
        b.minus(a).norm() == segment_length,
        elasticity > 0,
    ensures
        correction(a, b, segment_length, elasticity) == Vector::zero(),
{
    let delta = b.minus(a);
    let d = delta.norm();
    if d != 0 {
        lemma_norm_sq_bound(delta, if delta.x >= 0 { delta.x } else { -delta.x } + if delta.y >= 0 {
            delta.y
        } else {
            -delta.y
        });
        let den = d * elasticity;
        assert(den > 0) by (nonlinear_arith)
            requires
                den == d * elasticity,
                d > 0,
                elasticity > 0,
        ;
        let num = (segment_length - d) * ONE;
        assert(num == 0);
        assert(delta.x * num == 0) by (nonlinear_arith)
            requires
                num == 0,
        ;
        assert(delta.y * num == 0) by (nonlinear_arith)
            requires
                num == 0,
        ;
        assert(0int / den == 0) by (nonlinear_arith)
            requires
                den > 0,
        ;
        assert(trunc_div(0, den) == 0);
    }
}

/// A point of the world that is moved by nothing stays where it is.
pub proof fn lemma_moved_by_zero(p: Vector)
    requires
        p.in_world(),
    ensures
        p.moved_by(Vector::zero()) == p,
        p.moved_by(Vector::zero().negated()) == p,
{
}

/// A relaxation pass over a rope whose neighbours are all at the rest
/// distance moves no point.
pub proof fn lemma_pass_at_rest(points: Seq<Vector>, segment_length: int, elasticity: int)
    requires
        points.len() >= 1,
        all_in_world(points),
        at_rest(points, segment_length),
        elasticity > 0,
    ensures
        relaxed_pass(points, segment_length, elasticity) == points,
{
    lemma_pairs_at_rest(points, (points.len() - 1) as nat, segment_length, elasticity);
}

/// Applying the constraints of the first `k` pairs of a rope whose
/// neighbours are all at the rest distance moves no point.
pub proof fn lemma_pairs_at_rest(points: Seq<Vector>, k: nat, segment_length: int, elasticity: int)
    requires
        k <= points.len() - 1,
        all_in_world(points),
        at_rest(points, segment_length),
        elasticity > 0,
    ensures
        relaxed_pairs(points, k, segment_length, elasticity) == points,
    decreases k,
{
    if k > 0 {
        lemma_pairs_at_rest(points, (k - 1) as nat, segment_length, elasticity);
        let i = k - 1;
        assert(spacing(points, i) == segment_length);
        lemma_no_correction_at_rest(points[i], points[i + 1], segment_length, elasticity);
        assert(points[i].in_world());
        assert(points[i + 1].in_world());
        lemma_moved_by_zero(points[i]);
        lemma_moved_by_zero(points[i + 1]);
        assert(relaxed_pair(points, i, segment_length, elasticity) =~= points);
    }
}

/// Any number of relaxation passes over a rope whose neighbours are all at
/// the rest distance moves no point.
pub proof fn lemma_relaxed_at_rest(
    points: Seq<Vector>,
    passes: nat,
    segment_length: int,
    elasticity: int,
)
    requires
        points.len() >= 1,
        all_in_world(points),
        at_rest(points, segment_length),
        elasticity > 0,
    ensures
        relaxed(points, passes, segment_length, elasticity) == points,
    decreases passes,
{
    if passes > 0 {
        lemma_relaxed_at_rest(points, (passes - 1) as nat, segment_length, elasticity);
        lemma_pass_at_rest(points, segment_length, elasticity);
    }
}

/// Relaxation passes add up: `a` passes followed by `b` passes are `a + b`
/// passes.
pub proof fn lemma_relaxed_adds(
    points: Seq<Vector>,
    a: nat,
    b: nat,
    segment_length: int,
    elasticity: int,
)
    ensures
        relaxed(relaxed(points, a, segment_length, elasticity), b, segment_length, elasticity)
            == relaxed(points, a + b, segment_length, elasticity),
    decreases b,
{
    if b > 0 {
        lemma_relaxed_adds(points, a, (b - 1) as nat, segment_length, elasticity);
    }
}

/// The relaxation of one tick is `substeps * inner` passes in all.
pub proof fn lemma_rounds_are_passes(rope: RopeModel, substeps: nat, inner: nat)
    ensures
        rope.rounds(substeps, inner) == rope.constrained(substeps * inner),
    decreases substeps,
{
    if substeps == 0 {
        assert(substeps * inner == 0) by (nonlinear_arith)
            requires
                substeps == 0,
        ;
    } else {
        let before = (substeps - 1) as nat;
        lemma_rounds_are_passes(rope, before, inner);
        lemma_relaxed_adds(rope.points, before * inner, inner, rope.segment_length, rope.elasticity);
        assert(before * inner + inner == substeps * inner) by (nonlinear_arith)
            requires
                before + 1 == substeps,
        ;
    }
}

/// A rope at rest, with no velocity, whose anchor is already on the target,
/// is left as it is by a tick.
pub proof fn lemma_update_at_equilibrium(
    rope: RopeModel,
    target: Vector,
    damping: int,
    substeps: nat,
    inner: nat,
)
    requires
        rope.wf(),
        damping > 0,
        at_rest(rope.points, rope.segment_length),
        rope.prev_points == rope.points,
        target.clamped() == rope.anchor(),
    ensures
        rope.updated(target, damping, substeps, inner) == rope,
{
    let integrated = rope.integrated(damping);
    assert forall|i: int| 0 <= i < rope.points.len() implies #[trigger] integrated.points[i]
        == rope.points[i] by {
        if i != 0 {
            let p = rope.points[i];
            assert(p.in_world());
            assert(p.minus(p) == Vector::zero());
            assert(0int / damping == 0) by (nonlinear_arith)
                requires
                    damping > 0,
            ;
            assert(0 * ONE == 0);
            assert(Vector::zero().scaled(ONE as int, damping) == Vector::zero());
            assert(integrated_point(p, p, damping) == p);
        }
    }
    assert(integrated.points =~= rope.points);
    assert(integrated.prev_points =~= rope.points);
    assert(integrated == rope);
    lemma_rounds_are_passes(rope, substeps, inner);
    lemma_relaxed_at_rest(rope.points, substeps * inner, rope.segment_length, rope.elasticity);
    assert(rope.points.update(0, rope.points[0]) =~= rope.points);
}

/// Every point lies within the world and not on its border.
pub open spec fn strictly_inside(points: Seq<Vector>) -> bool {
    forall|i: int|
        0 <= i < points.len() ==> {
            &&& -WORLD_LIMIT < (#[trigger] points[i]).x < WORLD_LIMIT
            &&& -WORLD_LIMIT < points[i].y < WORLD_LIMIT
        }
}

/// Applying the constraints of the first `k` pairs leaves every point after
/// the `k`-th where it was, and every point within the world.
pub proof fn lemma_pairs_touch_prefix(
    points: Seq<Vector>,
    k: nat,
    segment_length: int,
    elasticity: int,
)
    requires
        k + 1 <= points.len(),
        all_in_world(points),
    ensures
        relaxed_pairs(points, k, segment_length, elasticity).len() == points.len(),
        all_in_world(relaxed_pairs(points, k, segment_length, elasticity)),
        forall|j: int|
            k < j < points.len() ==> #[trigger] relaxed_pairs(
                points,
                k,
                segment_length,
                elasticity,
            )[j] == points[j],
    decreases k,
{
    if k > 0 {
        lemma_pairs_touch_prefix(points, (k - 1) as nat, segment_length, elasticity);
        let before = relaxed_pairs(points, (k - 1) as nat, segment_length, elasticity);
        let after = relaxed_pairs(points, k, segment_length, elasticity);
        assert forall|j: int| 0 <= j < after.len() implies (#[trigger] after[j]).in_world() by {
            assert(before[j].in_world());
        }
    }
}

/// If applying the constraints of the first `k` pairs leaves a rope whose
/// points are not on the border of the world as it was, then none of them
/// moved anything: the corrections of all `k` pairs are zero.
pub proof fn lemma_settled_pairs(
    points: Seq<Vector>,
    k: nat,
    segment_length: int,
    elasticity: int,
)
    requires
        k + 1 <= points.len(),
        strictly_inside(points),
        relaxed_pairs(points, k, segment_length, elasticity) == points,
    ensures
        forall|i: int|
            0 <= i < k ==> #[trigger] correction(
                points[i],
                points[i + 1],
                segment_length,
                elasticity,
            ) == Vector::zero(),
    decreases k,
{
    if k > 0 {
        assert(all_in_world(points)) by {
            assert forall|i: int| 0 <= i < points.len() implies (#[trigger] points[i]).in_world() by {}
        }
        lemma_pairs_touch_prefix(points, (k - 1) as nat, segment_length, elasticity);
        let before = relaxed_pairs(points, (k - 1) as nat, segment_length, elasticity);
        let after = relaxed_pair(before, k - 1, segment_length, elasticity);
        let c = correction(before[k - 1], before[k as int], segment_length, elasticity);
        assert(before[k as int] == points[k as int]);
        assert(after[k as int] == before[k as int].moved_by(c));
        assert(after[k as int] == points[k as int]);
        let p = points[k as int];
        assert(-WORLD_LIMIT < p.x < WORLD_LIMIT && -WORLD_LIMIT < p.y < WORLD_LIMIT);
        assert(c == Vector::zero());
        assert(before[k - 1].in_world());
        assert(after =~= before);
        lemma_settled_pairs(points, (k - 1) as nat, segment_length, elasticity);
    }
}

/// Of a displacement that is not zero, one coordinate is at least half its
/// length.
pub proof fn lemma_long_coordinate(d: Vector)
    requires
        d.norm() > 0,
    ensures
        2 * d.x >= d.norm() || -2 * d.x >= d.norm() || 2 * d.y >= d.norm() || -2 * d.y >= d.norm(),
{
    let (x, y, n) = (d.x, d.y, d.norm());
    assert(d.norm_sq() >= 0) by (nonlinear_arith)
        requires
            d.norm_sq() == x * x + y * y,
    ;
    lemma_floor_sqrt_exists(d.norm_sq());
    assert(n * n <= x * x + y * y);
    if !(2 * x >= n || -2 * x >= n || 2 * y >= n || -2 * y >= n) {
        assert(4 * (x * x) < n * n) by (nonlinear_arith)
            requires
                -n < 2 * x < n,
        ;
        assert(4 * (y * y) < n * n) by (nonlinear_arith)
            requires
                -n < 2 * y < n,
        ;
        assert(n * n > 0) by (nonlinear_arith)
            requires
                n > 0,
        ;
    }
}

/// A product that rounds to zero when divided is smaller in magnitude than
/// the divisor; if its first factor is at least half of `length`, and the
/// divisor is `length * elasticity`, its second factor is within twice the
/// elasticity.
proof fn lemma_small_factor(v: int, m: int, length: int, elasticity: int)
    requires
        length > 0,
        elasticity > 0,
        2 * v >= length || -2 * v >= length,
        trunc_div(v * m, length * elasticity) == 0,
    ensures
        -2 * elasticity < m < 2 * elasticity,
{
    let den = length * elasticity;
    assert(den > 0) by (nonlinear_arith)
        requires
            den == length * elasticity,
            length > 0,
            elasticity > 0,
    ;
    lemma_trunc_div_error(v * m, den);
    assert(0 * den == 0);
    assert(-den < v * m < den);
    assert(-2 * elasticity < m < 2 * elasticity) by (nonlinear_arith)
        requires
            -(length * elasticity) < v * m < length * elasticity,
            2 * v >= length || -2 * v >= length,
            length > 0,
            elasticity > 0,
    ;
}

/// Two neighbours in different places that are not corrected are at the
/// rest distance to within twice the elasticity, in micro-units: a smaller
/// correction would round to nothing.
pub proof fn lemma_uncorrected_spacing(a: Vector, b: Vector, segment_length: int, elasticity: int)
    requires
        elasticity > 0,
        correction(a, b, segment_length, elasticity) == Vector::zero(),
        b.minus(a).norm() > 0,
    ensures
        -2 * elasticity < (segment_length - b.minus(a).norm()) * ONE < 2 * elasticity,
{
    let delta = b.minus(a);
    let d = delta.norm();
    let m = (segment_length - d) * ONE;
    lemma_long_coordinate(delta);
    if 2 * delta.x >= d || -2 * delta.x >= d {
        lemma_small_factor(delta.x, m, d, elasticity);
    } else {
        lemma_small_factor(delta.y, m, d, elasticity);
    }
}

/// Where relaxation has come to rest, the rope is at its rest length: if a
/// pass leaves a rope, none of whose points is on the border of the world,
/// as it was, then every two neighbours that are not on the same place are
/// at the rest distance to within twice the elasticity, in micro-units.
pub proof fn lemma_settled_spacing(points: Seq<Vector>, segment_length: int, elasticity: int)
    requires
        points.len() >= 1,
        strictly_inside(points),
        elasticity > 0,
        relaxed_pass(points, segment_length, elasticity) == points,
    ensures
        forall|i: int|
            0 <= i < points.len() - 1 && spacing(points, i) > 0 ==> -2 * elasticity < (
            segment_length - #[trigger] spacing(points, i)) * ONE < 2 * elasticity,
{
    lemma_settled_pairs(points, (points.len() - 1) as nat, segment_length, elasticity);
    assert forall|i: int| 0 <= i < points.len() - 1 && spacing(points, i) > 0 implies -2
        * elasticity < (segment_length - #[trigger] spacing(points, i)) * ONE < 2 * elasticity by {
        assert(correction(points[i], points[i + 1], segment_length, elasticity) == Vector::zero());
        lemma_uncorrected_spacing(points[i], points[i + 1], segment_length, elasticity);
    }
}

} // verus!
