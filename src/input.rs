use vstd::prelude::*;
use crate::geometry::Vector;
use crate::physics::Body;

verus! {

/// Horizontal direction from the key state: -1 for left, +1 for right, each
/// counted on its own, so both keys cancel.
pub open spec fn direction_of(left: bool, right: bool) -> int {
    (if left { -1int } else { 0int }) + (if right { 1int } else { 0int })
}

pub fn paddle_direction(left: bool, right: bool) -> (d: i64)
    ensures
        d == direction_of(left, right),
{
    let mut d: i64 = 0;
    if left {
        d = d - 1;
    }
    if right {
        d = d + 1;
    }
    d
}

/// The paddle's velocity for the key state: `(speed, 0) * direction`.
pub fn paddle_velocity(left: bool, right: bool, speed: i64) -> (v: Vector)
    requires
        speed > i64::MIN,
    ensures
        v.x == speed * direction_of(left, right),
        v.y == 0,
{
    let d = paddle_direction(left, right);
    assert(-i64::MAX <= speed * d <= i64::MAX) by (nonlinear_arith)
        requires
            -1 <= d <= 1,
            i64::MIN < speed,
    ;
    Vector { x: speed * d, y: 0 }
}

/// Sets the paddle's velocity from the key state; its position is untouched.
pub fn paddle_input(paddle: &mut Body, left: bool, right: bool, speed: i64)
    requires
        speed > i64::MIN,
    ensures
        final(paddle).position == old(paddle).position,
        final(paddle).velocity.x == speed * direction_of(left, right),
        final(paddle).velocity.y == 0,
{
    paddle.velocity = paddle_velocity(left, right, speed);
}

} // verus!
