//! From the pointer on the window to the target in the world.

use vstd::prelude::*;
use crate::fixed::{clamp_coord, clamp_to_world, trunc_div};
use crate::vec2::{Vec2, Vector};

verus! {

/// The point of the world under a pointer at `cursor` on a window of the
/// size `window_size`: the window's centre is the world's origin, and the
/// window's vertical axis, which runs downward, is turned upward.
pub open spec fn pointer_target(window_size: Vector, cursor: Vector) -> Vector {
    Vector {
        x: clamp_coord(cursor.x - trunc_div(window_size.x, 2)),
        y: clamp_coord(trunc_div(window_size.y, 2) - cursor.y),
    }
}

/// The point of the world under a pointer at `cursor` on a window of the
/// size `window_size`.
pub fn adjust_coords(window_size: Vec2, cursor: Vec2) -> (target: Vec2)
    ensures
        target@ == pointer_target(window_size@, cursor@),
        target@.in_world(),
{
    let x: i128 = cursor.x as i128 - (window_size.x / 2) as i128;
    let y: i128 = (window_size.y / 2) as i128 - cursor.y as i128;
    Vec2 { x: clamp_to_world(x), y: clamp_to_world(y) }
}

} // verus!
