//! The rope: a chain of points held together by rest-length constraints,
//! whose first point, the anchor, follows an outside target.

use vstd::prelude::*;
use crate::config::Config;
use crate::fixed::{div_toward_zero, ONE, WORLD_LIMIT};
use crate::vec2::{Vec2, Vector};

verus! {

/// Why a rope could not be made.
#[derive(Clone, Copy, Debug, PartialEq, Eq, Structural)]
pub enum RopeError {
    /// A rope needs at least two points.
    TooFewPoints,
    /// The thickness is negative or larger than the world.
    Thickness,
    /// The elasticity is not positive, or larger than the world.
    Elasticity,
}

/// The points that a sequence of fixed-point positions stands for.
pub open spec fn vectors(points: Seq<Vec2>) -> Seq<Vector> {
    points.map_values(|p: Vec2| p@)
}

/// Every point of the sequence lies within the world.
pub open spec fn all_in_world(points: Seq<Vector>) -> bool {
    forall|i: int| 0 <= i < points.len() ==> (#[trigger] points[i]).in_world()
}

/// The `i`-th of `count` points spread evenly from `start` to `end`.
pub open spec fn initial_point(start: Vector, end: Vector, count: int, i: int) -> Vector {
    start.moved_by(end.minus(start).scaled(i, count - 1))
}

/// Where a point at `p` that was at `prev` one tick ago goes by itself: on by
/// its velocity divided by `damping` (a fixed-point number above zero).
pub open spec fn integrated_point(p: Vector, prev: Vector, damping: int) -> Vector {
    p.moved_by(p.minus(prev).scaled(ONE as int, damping))
}

/// What two neighbours `a` and `b` are moved by, `b` forward and `a` back,
/// to bring their distance nearer to the rest length: the displacement from
/// `a` to `b`, scaled to the length `(segment_length - distance) / elasticity`.
/// Two points in the same place have no direction and are not moved.
pub open spec fn correction(a: Vector, b: Vector, segment_length: int, elasticity: int) -> Vector {
    let delta = b.minus(a);
    delta.along((segment_length - delta.norm()) * ONE, elasticity)
}

/// The points after the constraint between point `i` and its successor has
/// been applied once.  The anchor, point 0, is never moved.
pub open spec fn relaxed_pair(
    points: Seq<Vector>,
    i: int,
    segment_length: int,
    elasticity: int,
) -> Seq<Vector> {
    let c = correction(points[i], points[i + 1], segment_length, elasticity);
    let forward = points.update(i + 1, points[i + 1].moved_by(c));
    if i == 0 {
        forward
    } else {
        forward.update(i, points[i].moved_by(c.negated()))
    }
}

/// The points after the constraints of the first `k` pairs have been
/// applied, one after the other from the anchor outward.
pub open spec fn relaxed_pairs(
    points: Seq<Vector>,
    k: nat,
    segment_length: int,
    elasticity: int,
) -> Seq<Vector>
    decreases k,
{
    if k == 0 {
        points
    } else {
        relaxed_pair(
            relaxed_pairs(points, (k - 1) as nat, segment_length, elasticity),
            k - 1,
            segment_length,
            elasticity,
        )
    }
}

/// The points after one pass over all pairs.
pub open spec fn relaxed_pass(points: Seq<Vector>, segment_length: int, elasticity: int) -> Seq<
    Vector,
> {
    relaxed_pairs(points, (points.len() - 1) as nat, segment_length, elasticity)
}

/// The points after `passes` passes.
pub open spec fn relaxed(
    points: Seq<Vector>,
    passes: nat,
    segment_length: int,
    elasticity: int,
) -> Seq<Vector>
    decreases passes,
{
    if passes == 0 {
        points
    } else {
        relaxed_pass(
            relaxed(points, (passes - 1) as nat, segment_length, elasticity),
            segment_length,
            elasticity,
        )
    }
}

/// Applying constraints moves neither the anchor nor the number of points.
pub proof fn lemma_relaxed_pairs_shape(
    points: Seq<Vector>,
    k: nat,
    segment_length: int,
    elasticity: int,
)
    requires
        k + 1 <= points.len(),
    ensures
        relaxed_pairs(points, k, segment_length, elasticity).len() == points.len(),
        relaxed_pairs(points, k, segment_length, elasticity)[0] == points[0],
    decreases k,
{
    if k > 0 {
        lemma_relaxed_pairs_shape(points, (k - 1) as nat, segment_length, elasticity);
    }
}

/// Relaxation moves neither the anchor nor the number of points.
pub proof fn lemma_relaxed_shape(
    points: Seq<Vector>,
    passes: nat,
    segment_length: int,
    elasticity: int,
)
    requires
        points.len() >= 1,
    ensures
        relaxed(points, passes, segment_length, elasticity).len() == points.len(),
        relaxed(points, passes, segment_length, elasticity)[0] == points[0],
    decreases passes,
{
    if passes > 0 {
        let before = relaxed(points, (passes - 1) as nat, segment_length, elasticity);
        lemma_relaxed_shape(points, (passes - 1) as nat, segment_length, elasticity);
        lemma_relaxed_pairs_shape(before, (before.len() - 1) as nat, segment_length, elasticity);
    }
}

/// The mathematical model of a [`Rope`].
pub struct RopeModel {
    /// The points, the anchor first.
    pub points: Seq<Vector>,
    /// Where each point was one tick ago.
    pub prev_points: Seq<Vector>,
    /// The rest distance between neighbours.
    pub segment_length: int,
    /// The thickness.
    pub thickness: int,
    /// The divisor of every correction.
    pub elasticity: int,
}

impl RopeModel {
    /// The invariant of a rope: at least two points, as many previous
    /// positions as points, all of them within the world, and tuning
    /// constants within their limits.
    pub open spec fn wf(self) -> bool {
        &&& self.points.len() >= 2
        &&& self.prev_points.len() == self.points.len()
        &&& all_in_world(self.points)
        &&& all_in_world(self.prev_points)
        &&& 0 <= self.segment_length <= 4 * WORLD_LIMIT
        &&& 0 <= self.thickness <= WORLD_LIMIT
        &&& 0 < self.elasticity <= WORLD_LIMIT
    }

    /// The rope of `count` points spread evenly from `start` to `end`, at
    /// rest.
    pub open spec fn initial(
        start: Vector,
        end: Vector,
        count: nat,
        thickness: int,
        elasticity: int,
    ) -> RopeModel {
        let points = Seq::new(count, |i: int| initial_point(start, end, count as int, i));
        RopeModel {
            points,
            prev_points: points,
            segment_length: end.minus(start).norm() / (count - 1),
            thickness,
            elasticity,
        }
    }

    /// The anchor.
    pub open spec fn anchor(self) -> Vector {
        self.points[0]
    }

    /// The rope after integration: every point but the anchor goes on by
    /// its velocity divided by `damping`, and remembers where it was.
    pub open spec fn integrated(self, damping: int) -> RopeModel {
        RopeModel {
            points: Seq::new(
                self.points.len(),
                |i: int|
                    if i == 0 {
                        self.points[0]
                    } else {
                        integrated_point(self.points[i], self.prev_points[i], damping)
                    },
            ),
            prev_points: Seq::new(
                self.points.len(),
                |i: int|
                    if i == 0 {
                        self.prev_points[0]
                    } else {
                        self.points[i]
                    },
            ),
            ..self
        }
    }

    /// The rope after `passes` relaxation passes.
    pub open spec fn constrained(self, passes: nat) -> RopeModel {
        RopeModel {
            points: relaxed(self.points, passes, self.segment_length, self.elasticity),
            ..self
        }
    }

    /// The rope after `substeps` rounds of `inner` relaxation passes each.
    pub open spec fn rounds(self, substeps: nat, inner: nat) -> RopeModel
        decreases substeps,
    {
        if substeps == 0 {
            self
        } else {
            self.rounds((substeps - 1) as nat, inner).constrained(inner)
        }
    }

    /// The rope with its anchor put on `target`.
    pub open spec fn pinned(self, target: Vector) -> RopeModel {
        RopeModel { points: self.points.update(0, target), ..self }
    }

    /// The number of points.
    pub open spec fn len(self) -> nat {
        self.points.len()
    }

    /// The radius at which point `i` is drawn: the thickness for a point on
    /// either end of the rope, half the thickness for any other.
    pub open spec fn draw_radius(self, i: int) -> int {
        if self.points[i] == self.points[0] || self.points[i] == self.points.last() {
            self.thickness
        } else {
            self.thickness / 2
        }
    }

    /// Everything about the rope that a tick leaves alone is the same in
    /// `other`: the number of points, the rest distance, the thickness and
    /// the elasticity.
    pub open spec fn same_shape(self, other: RopeModel) -> bool {
        &&& self.points.len() == other.points.len()
        &&& self.prev_points.len() == other.prev_points.len()
        &&& self.segment_length == other.segment_length
        &&& self.thickness == other.thickness
        &&& self.elasticity == other.elasticity
    }

    /// The rope one tick later: integrated, relaxed, and then anchored on
    /// the point of the world nearest to `target`.
    pub open spec fn updated(self, target: Vector, damping: int, substeps: nat, inner: nat) -> RopeModel {
        self.integrated(damping).rounds(substeps, inner).pinned(target.clamped())
    }

    /// Rounds of relaxation move neither the anchor nor the number of
    /// points.
    pub proof fn lemma_rounds_shape(self, substeps: nat, inner: nat)
        requires
            self.points.len() >= 1,
        ensures
            self.rounds(substeps, inner).same_shape(self),
            self.rounds(substeps, inner).prev_points == self.prev_points,
            self.rounds(substeps, inner).points[0] == self.points[0],
        decreases substeps,
    {
        if substeps > 0 {
            let before = self.rounds((substeps - 1) as nat, inner);
            self.lemma_rounds_shape((substeps - 1) as nat, inner);
            lemma_relaxed_shape(before.points, inner, before.segment_length, before.elasticity);
        }
    }

    /// A tick changes neither the number of points nor the tuning of the
    /// rope, leaves the anchor on the target, and makes every point
    /// remember where it was.
    pub proof fn lemma_updated_shape(self, target: Vector, damping: int, substeps: nat, inner: nat)
        requires
            self.wf(),
        ensures
            self.updated(target, damping, substeps, inner).same_shape(self),
            self.updated(target, damping, substeps, inner).anchor() == target.clamped(),
            forall|i: int|
                1 <= i < self.points.len() ==> #[trigger] self.updated(
                    target,
                    damping,
                    substeps,
                    inner,
                ).prev_points[i] == self.points[i],
    {
        self.integrated(damping).lemma_rounds_shape(substeps, inner);
    }
}

/// A rope.
pub struct Rope {
    points: Vec<Vec2>,
    prev_points: Vec<Vec2>,
    segment_length: i64,
    thickness: i64,
    elasticity: i64,
}

impl View for Rope {
    type V = RopeModel;

    closed spec fn view(&self) -> RopeModel {
        RopeModel {
            points: vectors(self.points@),
            prev_points: vectors(self.prev_points@),
            segment_length: self.segment_length as int,
            thickness: self.thickness as int,
            elasticity: self.elasticity as int,
        }
    }
}

impl Rope {
    /// The invariant of a rope.
    pub open spec fn wf(&self) -> bool {
        self@.wf()
    }

    /// A rope of `count` points spread evenly from `start` to `end` (both
    /// moved into the world if they lie outside), at rest, with the default
    /// thickness of 6 units and elasticity of 5.
    pub fn new(start: Vec2, end: Vec2, count: usize) -> (r: Result<Rope, RopeError>)
        ensures
            count < 2 <==> r is Err,
            r is Err ==> r->Err_0 == RopeError::TooFewPoints,
            r is Ok ==> r->Ok_0.wf() && r->Ok_0@ == RopeModel::initial(
                start@.clamped(),
                end@.clamped(),
                count as nat,
                Config::standard().thickness as int,
                Config::standard().elasticity as int,
            ),
    {
        Rope::with_tuning(start, end, count, 6_000_000, 5_000_000)
    }

    /// A rope of `count` points spread evenly from `start` to `end` (both
    /// moved into the world if they lie outside), at rest.  Fails on fewer
    /// than two points, else on a thickness out of range, else on an
    /// elasticity out of range.
    pub fn with_tuning(start: Vec2, end: Vec2, count: usize, thickness: i64, elasticity: i64) -> (r:
        Result<Rope, RopeError>)
        ensures
            r is Err <==> count < 2 || !(0 <= thickness <= WORLD_LIMIT) || !(0 < elasticity
                <= WORLD_LIMIT),
            r is Err ==> r->Err_0 == (if count < 2 {
                RopeError::TooFewPoints
            } else if !(0 <= thickness <= WORLD_LIMIT) {
                RopeError::Thickness
            } else {
                RopeError::Elasticity
            }),
            r is Ok ==> r->Ok_0.wf() && r->Ok_0@ == RopeModel::initial(
                start@.clamped(),
                end@.clamped(),
                count as nat,
                thickness as int,
                elasticity as int,
            ),
    {
        if count < 2 {
            return Err(RopeError::TooFewPoints);
        }
        if !(0 <= thickness && thickness <= WORLD_LIMIT) {
            return Err(RopeError::Thickness);
        }
        if !(0 < elasticity && elasticity <= WORLD_LIMIT) {
            return Err(RopeError::Elasticity);
        }
        let start: Vec2 = start.clamped();
        let end: Vec2 = end.clamped();
        let span = end.since(start);
        let length: i64 = span.norm();
        let last: i128 = (count - 1) as i128;
        let segment_length: i64 = div_toward_zero(length as i128, last) as i64;
        let mut points: Vec<Vec2> = Vec::new();
        let mut i: usize = 0;
        while i < count
            invariant
                0 <= i <= count,
                count >= 2,
                last == count - 1,
                start@.in_world(),
                span@ == end@.minus(start@),
                span@.is_span(),
                points@.len() == i,
                forall|j: int|
                    0 <= j < i ==> (#[trigger] points@[j])@ == initial_point(
                        start@,
                        end@,
                        count as int,
                        j,
                    ),
            decreases count - i,
        {
            let step = span.scaled(i as i128, last);
            points.push(start.moved_by(step));
            i += 1;
        }
        let prev_points: Vec<Vec2> = points.clone();
        let rope = Rope { points, prev_points, segment_length, thickness, elasticity };
        proof {
            let model = RopeModel::initial(
                start@,
                end@,
                count as nat,
                thickness as int,
                elasticity as int,
            );
            assert(prev_points@ =~= points@);
            assert(rope@.points =~= model.points);
            assert(rope@.prev_points =~= model.points);
            assert(segment_length == span@.norm() / (count - 1));
            assert(rope@ == model);
            assert(all_in_world(rope@.points));
        }
        Ok(rope)
    }

    /// Integration: every point but the anchor goes on by its velocity
    /// divided by `damping`, and remembers where it was.
    pub fn integrate(&mut self, damping: i64)
        requires
            old(self).wf(),
            0 < damping <= WORLD_LIMIT,
        ensures
            final(self).wf(),
            final(self)@ == old(self)@.integrated(damping as int),
            final(self)@.same_shape(old(self)@),
            final(self)@.anchor() == old(self)@.anchor(),
    {
        let ghost before = self@;
        let count: usize = self.points.len();
        let mut i: usize = 1;
        while i < count
            invariant
                1 <= i <= count,
                count == before.points.len(),
                before.wf(),
                before == old(self)@,
                0 < damping <= WORLD_LIMIT,
                self@.segment_length == before.segment_length,
                self@.thickness == before.thickness,
                self@.elasticity == before.elasticity,
                self@.points.len() == count,
                self@.prev_points.len() == count,
                forall|j: int|
                    0 <= j < i ==> #[trigger] self@.points[j] == before.integrated(
                        damping as int,
                    ).points[j],
                forall|j: int|
                    0 <= j < i ==> #[trigger] self@.prev_points[j] == before.integrated(
                        damping as int,
                    ).prev_points[j],
                forall|j: int| i <= j < count ==> #[trigger] self@.points[j] == before.points[j],
                forall|j: int|
                    i <= j < count ==> #[trigger] self@.prev_points[j] == before.prev_points[j],
            decreases count - i,
        {
            let current: Vec2 = self.points[i];
            let prev: Vec2 = self.prev_points[i];
            proof {
                assert(self@.points[i as int] == before.points[i as int]);
                assert(self@.prev_points[i as int] == before.prev_points[i as int]);
                assert(before.points[i as int].in_world());
                assert(before.prev_points[i as int].in_world());
            }
            let velocity = current.since(prev);
            let next: Vec2 = current.moved_by(velocity.scaled(ONE as i128, damping as i128));
            let ghost points_before = self.points@;
            let ghost prev_before = self.prev_points@;
            self.prev_points[i] = current;
            self.points[i] = next;
            proof {
                assert(vectors(self.points@) =~= vectors(points_before).update(i as int, next@));
                assert(vectors(self.prev_points@) =~= vectors(prev_before).update(
                    i as int,
                    current@,
                ));
            }
            i += 1;
        }
        proof {
            let after = before.integrated(damping as int);
            assert(self@.points =~= after.points);
            assert(self@.prev_points =~= after.prev_points);
            assert forall|j: int| 0 <= j < count implies (#[trigger] after.points[j]).in_world() by {
                assert(before.points[j].in_world());
            }
            assert forall|j: int| 0 <= j < count implies (
            #[trigger] after.prev_points[j]).in_world() by {
                assert(before.points[j].in_world());
                assert(before.prev_points[j].in_world());
            }
        }
    }

    /// Applies the constraint between point `i` and its successor once.
    fn relax_pair(&mut self, i: usize)
        requires
            old(self).wf(),
            i + 1 < old(self)@.points.len(),
        ensures
            final(self).wf(),
            final(self)@ == (RopeModel {
                points: relaxed_pair(
                    old(self)@.points,
                    i as int,
                    old(self)@.segment_length,
                    old(self)@.elasticity,
                ),
                ..old(self)@
            }),
    {
        let count: usize = self.points.len();
        assert(count == self@.points.len());
        let a: Vec2 = self.points[i];
        let b: Vec2 = self.points[i + 1];
        proof {
            assert(self@.points[i as int].in_world());
            assert(self@.points[i + 1].in_world());
        }
        let delta = b.since(a);
        let distance: i64 = delta.norm();
        let difference: i128 = self.segment_length as i128 - distance as i128;
        let c = delta.along(difference * (ONE as i128), self.elasticity);
        let ghost points_before = self.points@;
        self.points[i + 1] = b.moved_by(c);
        if i != 0 {
            self.points[i] = a.moved_by(c.negated());
        }
        proof {
            let expected = relaxed_pair(
                vectors(points_before),
                i as int,
                self.segment_length as int,
                self.elasticity as int,
            );
            assert(vectors(self.points@) =~= expected);
            assert forall|j: int| 0 <= j < expected.len() implies (
            #[trigger] expected[j]).in_world() by {
                assert(vectors(points_before)[j].in_world());
            }
        }
    }

    /// One relaxation pass: the constraint of every pair of neighbours is
    /// applied once, from the anchor outward.
    pub fn relax_pass(&mut self)
        requires
            old(self).wf(),
        ensures
            final(self).wf(),
            final(self)@ == old(self)@.constrained(1),
            final(self)@.same_shape(old(self)@),
            final(self)@.anchor() == old(self)@.anchor(),
    {
        let ghost before = self@;
        let count: usize = self.points.len();
        let mut i: usize = 0;
        while i + 1 < count
            invariant
                0 <= i < count,
                count == before.points.len(),
                self.wf(),
                self@.points.len() == count,
                self@ == (RopeModel {
                    points: relaxed_pairs(
                        before.points,
                        i as nat,
                        before.segment_length,
                        before.elasticity,
                    ),
                    ..before
                }),
            decreases count - i,
        {
            self.relax_pair(i);
            i += 1;
        }
        proof {
            reveal_with_fuel(relaxed, 2);
            lemma_relaxed_shape(before.points, 1, before.segment_length, before.elasticity);
        }
    }

    /// `passes` relaxation passes.
    pub fn constrain_points(&mut self, passes: u32)
        requires
            old(self).wf(),
        ensures
            final(self).wf(),
            final(self)@ == old(self)@.constrained(passes as nat),
            final(self)@.same_shape(old(self)@),
            final(self)@.anchor() == old(self)@.anchor(),
    {
        let ghost before = self@;
        proof {
            lemma_relaxed_shape(
                before.points,
                passes as nat,
                before.segment_length,
                before.elasticity,
            );
        }
        let mut done: u32 = 0;
        while done < passes
            invariant
                0 <= done <= passes,
                self.wf(),
                self@ == before.constrained(done as nat),
            decreases passes - done,
        {
            let ghost at_start = self@;
            self.relax_pass();
            proof {
                reveal_with_fuel(relaxed, 2);
                assert(self@.points == relaxed_pass(
                    at_start.points,
                    before.segment_length,
                    before.elasticity,
                ));
            }
            done += 1;
        }
    }

    /// Puts the anchor on the point of the world nearest to `target`.
    pub fn pin(&mut self, target: Vec2)
        requires
            old(self).wf(),
        ensures
            final(self).wf(),
            final(self)@ == old(self)@.pinned(target@.clamped()),
            final(self)@.same_shape(old(self)@),
            final(self)@.anchor() == target@.clamped(),
    {
        let ghost points_before = self.points@;
        let target: Vec2 = target.clamped();
        self.points[0] = target;
        proof {
            assert(vectors(self.points@) =~= vectors(points_before).update(0, target@));
            assert forall|j: int| 0 <= j < self@.points.len() implies (
            #[trigger] self@.points[j]).in_world() by {
                assert(vectors(points_before)[j].in_world());
            }
        }
    }

    /// One tick: integration, then `config.substeps` rounds of
    /// `config.inner_iterations` relaxation passes, then the anchor is put on
    /// the point of the world nearest to `target`.
    pub fn update(&mut self, target: Vec2, config: &Config)
        requires
            old(self).wf(),
            config.valid(),
        ensures
            final(self).wf(),
            final(self)@ == old(self)@.updated(
                target@,
                config.damping as int,
                config.substeps as nat,
                config.inner_iterations as nat,
            ),
            final(self)@.same_shape(old(self)@),
            final(self)@.anchor() == target@.clamped(),
    {
        proof {
            old(self)@.lemma_updated_shape(
                target@,
                config.damping as int,
                config.substeps as nat,
                config.inner_iterations as nat,
            );
        }
        self.integrate(config.damping);
        let ghost integrated = self@;
        let mut round: u32 = 0;
        while round < config.substeps
            invariant
                0 <= round <= config.substeps,
                self.wf(),
                self@ == integrated.rounds(round as nat, config.inner_iterations as nat),
            decreases config.substeps - round,
        {
            self.constrain_points(config.inner_iterations);
            round += 1;
        }
        self.pin(target);
    }

    /// The radius at which point `i` is drawn: the thickness for a point on
    /// either end of the rope, half the thickness for any other.
    pub fn point_radius(&self, i: usize) -> (r: i64)
        requires
            self.wf(),
            i < self@.points.len(),
        ensures
            r == self@.draw_radius(i as int),
    {
        let last: usize = self.points.len() - 1;
        let p: Vec2 = self.points[i];
        if p == self.points[0] || p == self.points[last] {
            self.thickness
        } else {
            self.thickness / 2
        }
    }

    /// The number of points.
    pub fn len(&self) -> (n: usize)
        requires
            self.wf(),
        ensures
            n == self@.points.len(),
            n >= 2,
    {
        self.points.len()
    }

    /// The `i`-th point.
    pub fn point(&self, i: usize) -> (p: Vec2)
        requires
            self.wf(),
            i < self@.points.len(),
        ensures
            p@ == self@.points[i as int],
            p@.in_world(),
    {
        assert(self@.points[i as int].in_world());
        self.points[i]
    }

    /// Where the `i`-th point was one tick ago.
    pub fn prev_point(&self, i: usize) -> (p: Vec2)
        requires
            self.wf(),
            i < self@.points.len(),
        ensures
            p@ == self@.prev_points[i as int],
            p@.in_world(),
    {
        assert(self@.prev_points[i as int].in_world());
        self.prev_points[i]
    }

    /// The anchor: the first point.
    pub fn anchor(&self) -> (p: Vec2)
        requires
            self.wf(),
        ensures
            p@ == self@.anchor(),
            p@.in_world(),
    {
        assert(self@.points[0].in_world());
        self.points[0]
    }

    /// All points, the anchor first.
    pub fn points(&self) -> (points: &Vec<Vec2>)
        ensures
            vectors(points@) == self@.points,
    {
        &self.points
    }

    /// The rest distance between neighbours.
    pub fn segment_length(&self) -> (l: i64)
        ensures
            l == self@.segment_length,
    {
        self.segment_length
    }

    /// The thickness.
    pub fn thickness(&self) -> (t: i64)
        ensures
            t == self@.thickness,
    {
        self.thickness
    }

    /// The divisor of every correction.
    pub fn elasticity(&self) -> (e: i64)
        ensures
            e == self@.elasticity,
    {
        self.elasticity
    }
}

} // verus!
