//! Points and displacements of the plane.

use vstd::prelude::*;
use crate::fixed::{
    clamp_coord, clamp_to_world, div_toward_zero, floor_sqrt, is_floor_sqrt, isqrt,
    lemma_floor_sqrt_exists, lemma_floor_sqrt_is, lemma_square_monotone, lemma_trunc_div_bound,
    trunc_div, SCALE_LIMIT, STEP_LIMIT, WORLD_LIMIT,
};

verus! {

/// A point or displacement with unbounded integer coordinates: the
/// mathematical model of [`Vec2`].
pub struct Vector {
    pub x: int,
    pub y: int,
}

impl Vector {
    /// The zero displacement.
    pub open spec fn zero() -> Vector {
        Vector { x: 0, y: 0 }
    }

    /// Both coordinates lie within the world.
    pub open spec fn in_world(self) -> bool {
        &&& -WORLD_LIMIT <= self.x <= WORLD_LIMIT
        &&& -WORLD_LIMIT <= self.y <= WORLD_LIMIT
    }

    /// The point of the world nearest to this one on each axis.
    pub open spec fn clamped(self) -> Vector {
        Vector { x: clamp_coord(self.x), y: clamp_coord(self.y) }
    }

    /// Componentwise sum.
    pub open spec fn plus(self, other: Vector) -> Vector {
        Vector { x: self.x + other.x, y: self.y + other.y }
    }

    /// Componentwise difference.
    pub open spec fn minus(self, other: Vector) -> Vector {
        Vector { x: self.x - other.x, y: self.y - other.y }
    }

    /// The opposite displacement.
    pub open spec fn negated(self) -> Vector {
        Vector { x: -self.x, y: -self.y }
    }

    /// The square of the Euclidean length.
    pub open spec fn norm_sq(self) -> int {
        self.x * self.x + self.y * self.y
    }

    /// The Euclidean length, rounded down.
    pub open spec fn norm(self) -> int {
        floor_sqrt(self.norm_sq())
    }

    /// This displacement times `num / den`, each coordinate rounded toward
    /// zero.
    pub open spec fn scaled(self, num: int, den: int) -> Vector
        recommends
            den > 0,
    {
        Vector { x: trunc_div(self.x * num, den), y: trunc_div(self.y * num, den) }
    }

    /// The displacement of this direction and of the length
    /// `magnitude / divisor`: each coordinate times `magnitude`, divided by
    /// the length times `divisor`, rounded toward zero.  The zero
    /// displacement has no direction and stays zero.
    pub open spec fn along(self, magnitude: int, divisor: int) -> Vector
        recommends
            divisor > 0,
    {
        if self.norm() == 0 {
            Vector::zero()
        } else {
            self.scaled(magnitude, self.norm() * divisor)
        }
    }

    /// The point reached from here by `step`, kept inside the world.
    pub open spec fn moved_by(self, step: Vector) -> Vector {
        self.plus(step).clamped()
    }

    /// The distance from here to `other` is less than `reach`.
    pub open spec fn closer_than(self, other: Vector, reach: int) -> bool {
        reach > 0 && self.minus(other).norm_sq() < reach * reach
    }

    /// The distance from here to `other` is more than `reach`.
    pub open spec fn farther_than(self, other: Vector, reach: int) -> bool {
        reach < 0 || self.minus(other).norm_sq() > reach * reach
    }
}

/// A point or displacement in fixed-point coordinates.
#[derive(Clone, Copy, Debug, PartialEq, Eq, Structural)]
pub struct Vec2 {
    pub x: i64,
    pub y: i64,
}

impl View for Vec2 {
    type V = Vector;

    open spec fn view(&self) -> Vector {
        Vector { x: self.x as int, y: self.y as int }
    }
}

/// A displacement wide enough to hold a scaled difference of two points.
#[derive(Clone, Copy, Debug)]
pub(crate) struct Wide {
    pub x: i128,
    pub y: i128,
}

impl View for Wide {
    type V = Vector;

    closed spec fn view(&self) -> Vector {
        Vector { x: self.x as int, y: self.y as int }
    }
}

/// The product of two bounded integers is bounded by the product of the bounds.
pub proof fn lemma_product_bound(a: int, a_max: int, b: int, b_max: int)
    requires
        -a_max <= a <= a_max,
        -b_max <= b <= b_max,
    ensures
        -(a_max * b_max) <= a * b <= a_max * b_max,
{
    assert(-(a_max * b_max) <= a * b <= a_max * b_max) by (nonlinear_arith)
        requires
            -a_max <= a <= a_max,
            -b_max <= b <= b_max,
    ;
}

/// A difference of two coordinates of the world, times a factor within the
/// scale limit, fits in 128 bits with room to spare.
pub proof fn lemma_scaled_fits(v: int, num: int)
    requires
        -2 * WORLD_LIMIT <= v <= 2 * WORLD_LIMIT,
        -SCALE_LIMIT <= num <= SCALE_LIMIT,
    ensures
        -STEP_LIMIT <= v * num <= STEP_LIMIT,
{
    lemma_product_bound(v, 2_000_000_000_000, num, 1_000_000_000_000_000_000_000_000);
}

/// A displacement whose coordinates are at most `m` in magnitude has a
/// squared length of at most `2 * m * m`, a length of at most `2 * m`, and a
/// length of zero only if it is the zero displacement.
pub proof fn lemma_norm_sq_bound(d: Vector, m: int)
    requires
        -m <= d.x <= m,
        -m <= d.y <= m,
    ensures
        0 <= d.norm_sq() <= 2 * (m * m),
        0 <= d.norm() <= 2 * m,
        d.norm() == 0 <==> d == Vector::zero(),
{
    let (x, y) = (d.x, d.y);
    assert(0 <= x * x <= m * m) by (nonlinear_arith)
        requires
            -m <= x <= m,
    ;
    assert(0 <= y * y <= m * m) by (nonlinear_arith)
        requires
            -m <= y <= m,
    ;
    lemma_floor_sqrt_exists(d.norm_sq());
    let r = d.norm();
    if r > 2 * m {
        lemma_square_monotone(2 * m + 1, r);
        assert((2 * m + 1) * (2 * m + 1) > 2 * (m * m)) by (nonlinear_arith)
            requires
                m >= 0,
        ;
    }
    if r == 0 {
        assert((r + 1) * (r + 1) == 1) by (nonlinear_arith)
            requires
                r == 0,
        ;
        assert(x == 0) by (nonlinear_arith)
            requires
                x * x < 1,
        ;
        assert(y == 0) by (nonlinear_arith)
            requires
                y * y < 1,
        ;
    }
    if d == Vector::zero() {
        assert(is_floor_sqrt(0, 0)) by (nonlinear_arith);
        assert(d.norm_sq() == 0) by (nonlinear_arith)
            requires
                d.norm_sq() == x * x + y * y,
                x == 0,
                y == 0,
        ;
        lemma_floor_sqrt_is(0, 0);
    }
}

impl Vec2 {
    /// The point with the given coordinates.
    pub fn new(x: i64, y: i64) -> (p: Vec2)
        ensures
            p.x == x,
            p.y == y,
    {
        Vec2 { x, y }
    }

    /// The point of the world nearest to this one on each axis.
    pub fn clamped(self) -> (p: Vec2)
        ensures
            p@ == self@.clamped(),
            p@.in_world(),
    {
        Vec2 { x: clamp_to_world(self.x as i128), y: clamp_to_world(self.y as i128) }
    }

    /// The displacement that leads from `from` to this point.
    pub(crate) fn since(self, from: Vec2) -> (d: Wide)
        ensures
            d@ == self@.minus(from@),
    {
        Wide { x: self.x as i128 - from.x as i128, y: self.y as i128 - from.y as i128 }
    }

    /// The square of the distance between two points of the world.
    pub fn distance_sq(self, other: Vec2) -> (s: u128)
        requires
            self@.in_world(),
            other@.in_world(),
        ensures
            s == self@.minus(other@).norm_sq(),
    {
        self.since(other).norm_sq()
    }

    /// The distance between two points of the world, rounded down.
    pub fn distance(self, other: Vec2) -> (d: i64)
        requires
            self@.in_world(),
            other@.in_world(),
        ensures
            d == self@.minus(other@).norm(),
            0 <= d <= 4 * WORLD_LIMIT,
    {
        self.since(other).norm()
    }

    /// Whether the distance between two points of the world is less than
    /// `reach`.  The squares are compared, so nothing is rounded.
    pub fn closer_than(self, other: Vec2, reach: i64) -> (b: bool)
        requires
            self@.in_world(),
            other@.in_world(),
        ensures
            b == self@.closer_than(other@, reach as int),
    {
        if reach <= 0 {
            return false;
        }
        let square: u128 = self.distance_sq(other);
        proof {
            lemma_product_bound(reach as int, i64::MAX as int, reach as int, i64::MAX as int);
            assert(reach * reach >= 0) by (nonlinear_arith);
        }
        let limit: u128 = (reach as u128) * (reach as u128);
        square < limit
    }

    /// Whether the distance between two points of the world is more than
    /// `reach`.  The squares are compared, so nothing is rounded.
    pub fn farther_than(self, other: Vec2, reach: i64) -> (b: bool)
        requires
            self@.in_world(),
            other@.in_world(),
        ensures
            b == self@.farther_than(other@, reach as int),
    {
        if reach < 0 {
            return true;
        }
        let square: u128 = self.distance_sq(other);
        proof {
            lemma_product_bound(reach as int, i64::MAX as int, reach as int, i64::MAX as int);
            assert(reach * reach >= 0) by (nonlinear_arith);
        }
        let limit: u128 = (reach as u128) * (reach as u128);
        square > limit
    }

    /// The point reached from this point of the world by `step`, kept inside
    /// the world.
    pub(crate) fn moved_by(self, step: Wide) -> (p: Vec2)
        requires
            self@.in_world(),
            step@.is_step(),
        ensures
            p@ == self@.moved_by(step@),
            p@.in_world(),
    {
        Vec2 {
            x: clamp_to_world(self.x as i128 + step.x),
            y: clamp_to_world(self.y as i128 + step.y),
        }
    }
}

impl Vector {
    /// Both coordinates are differences of coordinates of the world.
    pub open spec fn is_span(self) -> bool {
        &&& -2 * WORLD_LIMIT <= self.x <= 2 * WORLD_LIMIT
        &&& -2 * WORLD_LIMIT <= self.y <= 2 * WORLD_LIMIT
    }

    /// Both coordinates are within the limit of a scaled displacement.
    pub open spec fn fits(self) -> bool {
        &&& -STEP_LIMIT <= self.x <= STEP_LIMIT
        &&& -STEP_LIMIT <= self.y <= STEP_LIMIT
    }

    /// Both coordinates are within the limit of a sum of two scaled
    /// displacements.
    pub open spec fn is_step(self) -> bool {
        &&& -2 * STEP_LIMIT <= self.x <= 2 * STEP_LIMIT
        &&& -2 * STEP_LIMIT <= self.y <= 2 * STEP_LIMIT
    }
}

impl Wide {
    /// The square of the length of a difference of two points of the world.
    pub(crate) fn norm_sq(self) -> (s: u128)
        requires
            self@.is_span(),
        ensures
            s == self@.norm_sq(),
    {
        proof {
            lemma_product_bound(self.x as int, 2_000_000_000_000, self.x as int, 2_000_000_000_000);
            lemma_product_bound(self.y as int, 2_000_000_000_000, self.y as int, 2_000_000_000_000);
            lemma_norm_sq_bound(self@, 2 * WORLD_LIMIT);
        }
        let xx: i128 = self.x * self.x;
        let yy: i128 = self.y * self.y;
        (xx + yy) as u128
    }

    /// The length of a difference of two points of the world, rounded down.
    pub(crate) fn norm(self) -> (d: i64)
        requires
            self@.is_span(),
        ensures
            d == self@.norm(),
            0 <= d <= 4 * WORLD_LIMIT,
            d == 0 <==> self@ == Vector::zero(),
    {
        proof {
            lemma_norm_sq_bound(self@, 2 * WORLD_LIMIT);
        }
        isqrt(self.norm_sq()) as i64
    }

    /// This displacement times `num / den`, each coordinate rounded toward
    /// zero.
    pub(crate) fn scaled(self, num: i128, den: i128) -> (r: Wide)
        requires
            self@.is_span(),
            -SCALE_LIMIT <= num <= SCALE_LIMIT,
            den > 0,
        ensures
            r@ == self@.scaled(num as int, den as int),
            r@.fits(),
    {
        proof {
            lemma_scaled_fits(self.x as int, num as int);
            lemma_scaled_fits(self.y as int, num as int);
            lemma_trunc_div_bound(self.x * num, den as int, STEP_LIMIT as int);
            lemma_trunc_div_bound(self.y * num, den as int, STEP_LIMIT as int);
        }
        Wide { x: div_toward_zero(self.x * num, den), y: div_toward_zero(self.y * num, den) }
    }

    /// This displacement stretched or shrunk to the length
    /// `magnitude / divisor`; the zero displacement stays zero.
    pub(crate) fn along(self, magnitude: i128, divisor: i64) -> (r: Wide)
        requires
            self@.is_span(),
            -SCALE_LIMIT <= magnitude <= SCALE_LIMIT,
            0 < divisor <= WORLD_LIMIT,
        ensures
            r@ == self@.along(magnitude as int, divisor as int),
            r@.fits(),
    {
        let length: i64 = self.norm();
        if length == 0 {
            Wide { x: 0, y: 0 }
        } else {
            proof {
                lemma_product_bound(length as int, 4_000_000_000_000, divisor as int, 1_000_000_000_000);
                assert(length * divisor > 0) by (nonlinear_arith)
                    requires
                        length > 0,
                        divisor > 0,
                ;
            }
            self.scaled(magnitude, length as i128 * divisor as i128)
        }
    }

    /// The opposite displacement.
    pub(crate) fn negated(self) -> (r: Wide)
        requires
            self@.fits(),
        ensures
            r@ == self@.negated(),
            r@.fits(),
    {
        Wide { x: -self.x, y: -self.y }
    }

    /// The sum of two displacements.
    pub(crate) fn plus(self, other: Wide) -> (r: Wide)
        requires
            self@.fits(),
            other@.fits(),
        ensures
            r@ == self@.plus(other@),
            r@.is_step(),
    {
        Wide { x: self.x + other.x, y: self.y + other.y }
    }
}

} // verus!
