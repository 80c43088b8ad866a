//! Food: discs that lie still until the rope touches them.

use vstd::prelude::*;
use crate::fixed::WORLD_LIMIT;
use crate::rope::Rope;
use crate::vec2::{Vec2, Vector};

verus! {

/// The mathematical model of a piece of [`Food`].
pub struct FoodModel {
    /// Where the piece lies.
    pub position: Vector,
    /// Its radius.
    pub radius: int,
}

impl FoodModel {
    /// The invariant of a piece of food: a position within the world, and a
    /// radius that is not negative and no larger than the world.
    pub open spec fn wf(self) -> bool {
        &&& self.position.in_world()
        &&& 0 <= self.radius <= WORLD_LIMIT
    }

    /// The piece is nearer than its radius plus `thickness` to the point.
    pub open spec fn touched_by(self, point: Vector, thickness: int) -> bool {
        self.position.closer_than(point, thickness + self.radius)
    }

    /// The piece is touched by one of the first `k` points.
    pub open spec fn touched_among(self, points: Seq<Vector>, k: int, thickness: int) -> bool {
        exists|i: int| 0 <= i < k && #[trigger] self.touched_by(points[i], thickness)
    }

    /// The piece is eaten by a rope with these points and this thickness:
    /// one of the points touches it.
    pub open spec fn eaten_by(self, points: Seq<Vector>, thickness: int) -> bool {
        self.touched_among(points, points.len() as int, thickness)
    }
}

/// A piece of food.
#[derive(Clone, Copy, Debug)]
pub struct Food {
    position: Vec2,
    radius: i64,
}

impl View for Food {
    type V = FoodModel;

    closed spec fn view(&self) -> FoodModel {
        FoodModel { position: self.position@, radius: self.radius as int }
    }
}

impl Food {
    /// The invariant of a piece of food.
    pub open spec fn wf(&self) -> bool {
        self@.wf()
    }

    /// A piece of the default radius of 5 units at the point of the world
    /// nearest to `position`.
    pub fn new(position: Vec2) -> (f: Food)
        ensures
            f.wf(),
            f@ == (FoodModel { position: position@.clamped(), radius: 5_000_000 }),
    {
        Food { position: position.clamped(), radius: 5_000_000 }
    }

    /// A piece at the point of the world nearest to `position`, or nothing
    /// if the radius is negative or larger than the world.
    pub fn with_radius(position: Vec2, radius: i64) -> (r: Option<Food>)
        ensures
            r is Some <==> 0 <= radius <= WORLD_LIMIT,
            r is Some ==> r->Some_0.wf() && r->Some_0@ == (FoodModel {
                position: position@.clamped(),
                radius: radius as int,
            }),
    {
        if 0 <= radius && radius <= WORLD_LIMIT {
            Some(Food { position: position.clamped(), radius })
        } else {
            None
        }
    }

    /// Where the piece lies.
    pub fn position(&self) -> (p: Vec2)
        ensures
            p@ == self@.position,
    {
        self.position
    }

    /// The radius.
    pub fn radius(&self) -> (r: i64)
        ensures
            r == self@.radius,
    {
        self.radius
    }

    /// Whether the rope eats the piece: whether one of its points is nearer
    /// to the piece than the rope's thickness plus the piece's radius.
    pub fn eaten_by(&self, rope: &Rope) -> (b: bool)
        requires
            self.wf(),
            rope.wf(),
        ensures
            b == self@.eaten_by(rope@.points, rope@.thickness),
    {
        let reach: i64 = rope.thickness() + self.radius;
        let count: usize = rope.len();
        let mut i: usize = 0;
        while i < count
            invariant
                0 <= i <= count,
                count == rope@.points.len(),
                rope.wf(),
                self.wf(),
                reach == rope@.thickness + self@.radius,
                !self@.touched_among(rope@.points, i as int, rope@.thickness),
            decreases count - i,
        {
            if self.position.closer_than(rope.point(i), reach) {
                assert(self@.touched_by(rope@.points[i as int], rope@.thickness));
                return true;
            }
            i += 1;
        }
        false
    }
}

} // verus!
