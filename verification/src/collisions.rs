//! Collision resolution for one unit step of ball motion.
//!
//! Given the ball, the direction it travels this sub-step, the field and
//! both paddles, the resolver produces the corrected ball position, the
//! corrected direction, a paddle-hit count and a score delta.  Four axis
//! checks run, each only when the travel direction points at the edge in
//! question: top wall, then the left side (wall, or else the left paddle),
//! then bottom wall, then the right side (wall, or else the right paddle).
//! Wall bounces snap the ball back to the boundary; paddle bounces only
//! reverse the direction's sign and leave the position alone.  The
//! resolver never changes a direction's magnitude, only its sign per axis.

use vstd::prelude::*;
use crate::ball::Ball;
use crate::pad::Pad;
use crate::point::Point;
use crate::rect::{Rect, right_of, bottom_of, intersects_of};

verus! {

#[derive(Clone, Copy, Debug, PartialEq, Eq, Structural)]
pub struct CollisionResults {
    pub ball_position: Point,
    pub ball_speed: Point,
    pub pad_hits: u32,
    pub scored: i32,
}

/// Did the ball, travelling up, cross the field's top edge?
pub open spec fn hits_top(ball: Rect, dir: Point, field: Rect) -> bool {
    dir.y < 0 && ball.top_left.y < field.top_left.y
}

/// Did the ball, travelling down, cross the field's bottom edge?
pub open spec fn hits_bottom(ball: Rect, dir: Point, field: Rect) -> bool {
    dir.y > 0 && bottom_of(ball) > bottom_of(field)
}

/// Did the ball, travelling left, cross the field's left edge?
pub open spec fn hits_left_wall(ball: Rect, dir: Point, field: Rect) -> bool {
    dir.x < 0 && ball.top_left.x < field.top_left.x
}

/// Did the ball, travelling left but still inside the field, touch the
/// left paddle?
pub open spec fn hits_left_pad(ball: Rect, dir: Point, field: Rect, lp: Rect) -> bool {
    dir.x < 0 && !hits_left_wall(ball, dir, field) && intersects_of(ball, lp)
}

/// Did the ball, travelling right, cross the field's right edge?
pub open spec fn hits_right_wall(ball: Rect, dir: Point, field: Rect) -> bool {
    dir.x > 0 && right_of(ball) > right_of(field)
}

/// Did the ball, travelling right but still inside the field, touch the
/// right paddle?
pub open spec fn hits_right_pad(ball: Rect, dir: Point, field: Rect, rp: Rect) -> bool {
    dir.x > 0 && !hits_right_wall(ball, dir, field) && intersects_of(ball, rp)
}

/// The outcome of one resolution step, as a mathematical function of the
/// pre-step state.  All checks read the pre-step rectangle and direction.
pub open spec fn resolve_spec(ball: Rect, dir: Point, field: Rect, lp: Rect, rp: Rect)
    -> CollisionResults {
    let y = if hits_top(ball, dir, field) {
        field.top_left.y as int
    } else if hits_bottom(ball, dir, field) {
        bottom_of(field) - ball.size.y
    } else {
        ball.top_left.y as int
    };
    let x = if hits_left_wall(ball, dir, field) {
        field.top_left.x as int
    } else if hits_right_wall(ball, dir, field) {
        right_of(field) - ball.size.x
    } else {
        ball.top_left.x as int
    };
    let flip_x = hits_left_wall(ball, dir, field) || hits_left_pad(ball, dir, field, lp)
        || hits_right_wall(ball, dir, field) || hits_right_pad(ball, dir, field, rp);
    let flip_y = hits_top(ball, dir, field) || hits_bottom(ball, dir, field);
    CollisionResults {
        ball_position: Point { x: x as i64, y: y as i64 },
        ball_speed: Point {
            x: if flip_x {
                (-(dir.x as int)) as i64
            } else {
                dir.x
            },
            y: if flip_y {
                (-(dir.y as int)) as i64
            } else {
                dir.y
            },
        },
        pad_hits: if hits_left_pad(ball, dir, field, lp) || hits_right_pad(ball, dir, field, rp) {
            1u32
        } else {
            0u32
        },
        scored: if hits_left_wall(ball, dir, field) {
            -1i32
        } else if hits_right_wall(ball, dir, field) {
            1i32
        } else {
            0i32
        },
    }
}

impl CollisionResults {
    /// Resolve one unit step: `ball_speed` is the direction of travel (only
    /// its per-axis signs are read).
    pub fn new(ball: &Ball, ball_speed: &Point, field: &Rect, left_pad: &Pad, right_pad: &Pad)
        -> (r: CollisionResults)
        requires
            ball_speed.x > i64::MIN,
            ball_speed.y > i64::MIN,
            i64::MIN <= right_of(*field) <= i64::MAX,
            i64::MIN <= bottom_of(*field) <= i64::MAX,
            i64::MIN <= right_of(*field) - ball.rect.size.x <= i64::MAX,
            i64::MIN <= bottom_of(*field) - ball.rect.size.y <= i64::MAX,
        ensures
            r == resolve_spec(ball.rect, *ball_speed, *field, left_pad.rect, right_pad.rect),
    {
        let mut ball_rect = ball.rect;
        let mut speed = *ball_speed;
        let mut pad_hits: u32 = 0;
        let mut scored: i32 = 0;

        if ball_speed.y < 0 {
            if ball.rect.top_left.y < field.top_left.y {
                ball_rect.set_y(field.y());
                speed.y = -speed.y;
            }
        }

        if ball_speed.x < 0 {
            if ball.rect.top_left.x < field.top_left.x {
                ball_rect.set_x(field.x());
                speed.x = -speed.x;
                scored = -1;
            } else if ball.rect.intersects_with(&left_pad.rect) {
                speed.x = -speed.x;
                pad_hits = pad_hits + 1;
            }
        }

        if ball_speed.y > 0 {
            if ball.rect.top_left.y as i128 + ball.rect.size.y as i128 > field.top_left.y as i128
                + field.size.y as i128 {
                ball_rect.set_bottom(field.bottom());
                speed.y = -speed.y;
            }
        }

        if ball_speed.x > 0 {
            if ball.rect.top_left.x as i128 + ball.rect.size.x as i128 > field.top_left.x as i128
                + field.size.x as i128 {
                ball_rect.set_right(field.right());
                speed.x = -speed.x;
                scored = 1;
            } else if ball.rect.intersects_with(&right_pad.rect) {
                speed.x = -speed.x;
                pad_hits = pad_hits + 1;
            }
        }

        CollisionResults { ball_position: ball_rect.top_left, ball_speed: speed, pad_hits, scored }
    }
}

/// A ball travelling left that touches the left paddle while inside the
/// field bounces off it: its horizontal direction flips sign, one paddle
/// hit is recorded, nothing is scored, and the position is left unchanged
/// on the x axis (paddle bounces never reposition the ball).
pub proof fn lemma_left_paddle_bounce(ball: Rect, dir: Point, field: Rect, lp: Rect, rp: Rect)
    requires
        i64::MIN < dir.x < 0,
        ball.top_left.x >= field.top_left.x,
        intersects_of(ball, lp),
    ensures
        resolve_spec(ball, dir, field, lp, rp).ball_speed.x == -dir.x,
        resolve_spec(ball, dir, field, lp, rp).pad_hits == 1,
        resolve_spec(ball, dir, field, lp, rp).scored == 0,
        resolve_spec(ball, dir, field, lp, rp).ball_position.x == ball.top_left.x,
{
}

/// A ball travelling left that crosses the field's left edge is snapped
/// back onto it, its horizontal direction flips sign, and the score delta
/// is -1; no paddle hit is recorded.
pub proof fn lemma_left_wall_score(ball: Rect, dir: Point, field: Rect, lp: Rect, rp: Rect)
    requires
        i64::MIN < dir.x < 0,
        ball.top_left.x < field.top_left.x,
    ensures
        resolve_spec(ball, dir, field, lp, rp).ball_position.x == field.top_left.x,
        resolve_spec(ball, dir, field, lp, rp).ball_speed.x == -dir.x,
        resolve_spec(ball, dir, field, lp, rp).scored == -1,
        resolve_spec(ball, dir, field, lp, rp).pad_hits == 0,
{
}

} // verus!
