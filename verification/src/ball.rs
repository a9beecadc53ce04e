//! The ball: a hitbox and a velocity.

use vstd::prelude::*;
use crate::point::Point;
use crate::rect::Rect;

verus! {

#[derive(Clone, Copy, Debug, PartialEq, Eq, Structural)]
pub struct Ball {
    pub rect: Rect,
    /// Velocity in coordinate units per time unit, signed per axis.
    pub speed: Point,
}

impl Ball {
    pub fn new(rect: Rect, speed: Point) -> (r: Ball)
        ensures
            r.rect == rect,
            r.speed == speed,
    {
        Ball { rect, speed }
    }
}

} // verus!
