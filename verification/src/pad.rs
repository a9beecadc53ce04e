//! A paddle: just a hitbox.  Paddles have no velocity of their own; they
//! move by direct position assignment.

use vstd::prelude::*;
use crate::rect::Rect;

verus! {

#[derive(Clone, Copy, Debug, PartialEq, Eq, Structural)]
pub struct Pad {
    pub rect: Rect,
}

impl Pad {
    pub fn new(rect: Rect) -> (r: Pad)
        ensures
            r.rect == rect,
    {
        Pad { rect }
    }
}

} // verus!
