//! The enemy paddle's strategy.
//!
//! Pure rubber-band chasing: the paddle moves its center vertically toward
//! the ball's center, never further than the remaining distance and never
//! further than the movement budget it is given for this sub-step.  The
//! caller applies the displacement and clamps the paddle into the field.

use vstd::prelude::*;
use crate::ball::Ball;
use crate::fixed::{abs_of, min_of};
use crate::pad::Pad;
use crate::rect::{center_x_of, center_y_of};

verus! {

pub struct EnemyStrategy {
    pub movement: i64,
}

/// The displacement the strategy chooses: as far toward the ball's center
/// as the budget allows, signed toward the ball, zero when the centers
/// coincide.
pub open spec fn enemy_move_of(pad_center: int, ball_center: int, max_movement: int) -> int {
    let dist = abs_of(ball_center - pad_center);
    let chosen = min_of(max_movement, dist);
    if pad_center < ball_center {
        chosen
    } else {
        -chosen
    }
}

impl EnemyStrategy {
    /// Compute the bounded vertical displacement for the enemy paddle.
    pub fn new(pad: &Pad, ball: &Ball, max_movement: i64) -> (r: EnemyStrategy)
        requires
            max_movement > i64::MIN,
            pad.rect.size.x >= 0,
            pad.rect.size.y >= 0,
            ball.rect.size.x >= 0,
            ball.rect.size.y >= 0,
            i64::MIN <= center_x_of(pad.rect) <= i64::MAX,
            i64::MIN <= center_y_of(pad.rect) <= i64::MAX,
            i64::MIN <= center_x_of(ball.rect) <= i64::MAX,
            i64::MIN <= center_y_of(ball.rect) <= i64::MAX,
            abs_of(center_y_of(ball.rect) - center_y_of(pad.rect)) <= i64::MAX,
        ensures
            r.movement == enemy_move_of(
                center_y_of(pad.rect),
                center_y_of(ball.rect),
                max_movement as int,
            ),
    {
        let pad_center = pad.rect.center().y;
        let ball_center = ball.rect.center().y;

        let d: i128 = ball_center as i128 - pad_center as i128;
        let dist: i64 = if d < 0 {
            (-d) as i64
        } else {
            d as i64
        };
        let min_dist: i64 = if max_movement <= dist {
            max_movement
        } else {
            dist
        };

        if pad_center < ball_center {
            EnemyStrategy { movement: min_dist }
        } else {
            EnemyStrategy { movement: -min_dist }
        }
    }
}

/// With a nonnegative budget the strategy always moves the paddle toward
/// the ball and never overshoots: a paddle centered below the ball (larger
/// y) gets a displacement that is negative whenever the budget allows any
/// movement at all, the displacement's magnitude never exceeds the budget,
/// and vertically aligned centers give exactly zero.
pub proof fn lemma_enemy_moves_toward_ball(pad_center: int, ball_center: int, max_movement: int)
    requires
        max_movement >= 0,
    ensures
        pad_center > ball_center ==> enemy_move_of(pad_center, ball_center, max_movement) <= 0,
        pad_center > ball_center && max_movement > 0 ==> enemy_move_of(
            pad_center,
            ball_center,
            max_movement,
        ) < 0,
        pad_center < ball_center ==> enemy_move_of(pad_center, ball_center, max_movement) >= 0,
        abs_of(enemy_move_of(pad_center, ball_center, max_movement)) <= max_movement,
        pad_center == ball_center ==> enemy_move_of(pad_center, ball_center, max_movement) == 0,
{
}

} // verus!
