//! Game state and the tick driver.
//!
//! `PongLogic` owns the field, the ball, both paddles, both scores and the
//! speed counter.  `handle_game_tick` advances the simulation by one
//! frame: it derives the enemy paddle's speed and the ball's speed boost
//! from the score difference and the rally counter, then sub-steps the
//! ball through the collision resolver and the enemy strategy once per
//! unit of speed magnitude (with a fractional last step), and finally
//! applies the scoring and round-reset rules.  `PongTick` carries the
//! per-tick scalars through that loop.
//!
//! All quantities are fixed-point (thousandths of a pixel, see
//! [`crate::fixed`]).  `wf` bounds the state so that every intermediate
//! product of the tick provably fits an `i64`; the bounds are far beyond
//! anything a real game reaches.  The two score counters and the speed
//! counter saturate at `u32::MAX` instead of overflowing.

use vstd::prelude::*;
use crate::ai::{EnemyStrategy, enemy_move_of};
use crate::ball::Ball;
use crate::collisions::{CollisionResults, resolve_spec};
use crate::fixed::{
    SCALE, abs_of, min_of, max_of, sign_of, div_tz, fp_mul_spec, fp_div_spec, lemma_div_tz_bound,
    lemma_mul_le, lemma_fp_mul_bound, lemma_fp_mul_sign, lemma_fp_mul_tight, fp_mul, fp_div,
};
use crate::pad::Pad;
use crate::point::{Point, len_of, norm_x_of, norm_y_of, lemma_norm_bounds};
use crate::rect::{
    Rect, right_of, bottom_of, center_y_of, with_y, keep_inside_of,
    lemma_keep_inside_contains,
};

verus! {

/// Distance between the field's vertical edges and the paddles (10 px).
pub const PAD_MARGIN: i64 = 10 * SCALE;

/// Base speed of the enemy paddle (400 px per time unit).
pub const AI_SPEED: i64 = 400 * SCALE;

/// Initial horizontal ball velocity at every round start (300 px/t).
pub const BALL_SPEED_X: i64 = 300 * SCALE;

/// Initial vertical ball velocity at every round start (-300 px/t: up).
pub const BALL_SPEED_Y: i64 = -300 * SCALE;

/// Largest magnitude the field's corner coordinates may have.
pub const COORD_LIMIT: i64 = 1_000_000_000_000;

/// Largest extent the field (and so every piece) may have.
pub const SIZE_LIMIT: i64 = 1_000_000_000;

/// Largest magnitude a ball or paddle coordinate may have.
pub const POS_LIMIT: i64 = 1_000_000_000_000_000;

/// Largest magnitude a ball velocity component may have.
pub const SPEED_LIMIT: i64 = 1_000_000_000;

/// Largest time delta a tick may be asked to advance (10 time units).
pub const DELTA_LIMIT: i64 = 10_000;

#[derive(Clone, Copy, Debug, PartialEq, Eq, Structural)]
pub struct PongLogic {
    pub field: Rect,
    pub ball: Ball,
    pub left_pad: Pad,
    pub right_pad: Pad,
    pub left_score: u32,
    pub right_score: u32,
    pub speed_counter: u32,
}

/// Well-formedness with an adjustable bound on the ball's position: the
/// field sits within `COORD_LIMIT` of the origin and has a nonnegative
/// extent no larger than `SIZE_LIMIT`; ball and paddles are no larger
/// than the field; paddles sit within `POS_LIMIT` and the ball within
/// `ball_limit`; the ball's velocity components stay within
/// `SPEED_LIMIT`.  Mid-tick, between a motion sub-step and its collision
/// resolution, the ball may stand one step beyond `POS_LIMIT`, which is
/// why the bound is a parameter.
pub open spec fn wf_within(g: PongLogic, ball_limit: int) -> bool {
    &&& abs_of(g.field.top_left.x as int) <= COORD_LIMIT
    &&& abs_of(g.field.top_left.y as int) <= COORD_LIMIT
    &&& 0 <= g.field.size.x <= SIZE_LIMIT
    &&& 0 <= g.field.size.y <= SIZE_LIMIT
    &&& 0 <= g.ball.rect.size.x <= g.field.size.x
    &&& 0 <= g.ball.rect.size.y <= g.field.size.y
    &&& 0 <= g.left_pad.rect.size.x <= g.field.size.x
    &&& 0 <= g.left_pad.rect.size.y <= g.field.size.y
    &&& 0 <= g.right_pad.rect.size.x <= g.field.size.x
    &&& 0 <= g.right_pad.rect.size.y <= g.field.size.y
    &&& abs_of(g.ball.rect.top_left.x as int) <= ball_limit
    &&& abs_of(g.ball.rect.top_left.y as int) <= ball_limit
    &&& abs_of(g.left_pad.rect.top_left.x as int) <= POS_LIMIT
    &&& abs_of(g.left_pad.rect.top_left.y as int) <= POS_LIMIT
    &&& abs_of(g.right_pad.rect.top_left.x as int) <= POS_LIMIT
    &&& abs_of(g.right_pad.rect.top_left.y as int) <= POS_LIMIT
    &&& abs_of(g.ball.speed.x as int) <= SPEED_LIMIT
    &&& abs_of(g.ball.speed.y as int) <= SPEED_LIMIT
}

/// Well-formed game state: everything within its limit.
pub open spec fn wf(g: PongLogic) -> bool {
    wf_within(g, POS_LIMIT as int)
}

/// The player's lead: left (human) score minus right (enemy) score.
pub open spec fn skill_of(g: PongLogic) -> int {
    g.left_score - g.right_score
}

/// The enemy paddle's speed for this tick, rubber-banded against the
/// score difference: scaled up by `1 + skill/4` when the human leads,
/// divided by `1 + |skill|/4` when the enemy leads.  The slowed speed is
/// floored at one coordinate unit, so the enemy keeps moving however far
/// behind the human falls (an astronomic deficit would otherwise
/// truncate the fixed-point quotient to a standstill).
pub open spec fn rubber_of(skill: int) -> int {
    if skill > 0 {
        fp_mul_spec(AI_SPEED as int, SCALE + div_tz(skill * SCALE, 4))
    } else if skill < 0 {
        max_of(1, fp_div_spec(AI_SPEED as int, SCALE + div_tz(-skill * SCALE, 4)))
    } else {
        AI_SPEED as int
    }
}

/// The enemy paddle never stands still: its rubber-banded speed is at
/// least one coordinate unit for every score gap, in both directions.
pub proof fn lemma_rubber_positive(skill: int)
    ensures
        rubber_of(skill) >= 1,
{
    if skill > 0 {
        let s = skill * (SCALE as int);
        assert(s >= 1000) by (nonlinear_arith)
            requires
                skill >= 1,
                s == skill * 1000,
        ;
        assert(s / 4 >= 250) by (nonlinear_arith)
            requires
                s >= 1000,
        ;
        let factor = SCALE + div_tz(s, 4);
        let p = (AI_SPEED as int) * factor;
        assert(p >= 500_000_000) by (nonlinear_arith)
            requires
                factor >= 1250,
                p == 400_000 * factor,
        ;
        assert(p / 1000 >= 500_000) by (nonlinear_arith)
            requires
                p >= 500_000_000,
        ;
    }
}

/// The ball's speed boost for this tick: `1 + counter/5`, plus up to one
/// extra unit (`min(skill/4, 1)`) when the human leads.
pub open spec fn boost_of(counter: u32, skill: int) -> int {
    let base = SCALE + div_tz(counter * SCALE, 5);
    if skill > 0 {
        base + min_of(div_tz(skill * SCALE, 4), SCALE as int)
    } else {
        base
    }
}

/// The speed boost is at least one unit and bounded, whatever the rally
/// counter and the score lead.
pub proof fn lemma_boost_bounds(counter: u32, skill: int)
    ensures
        SCALE <= boost_of(counter, skill) <= 900_000_000_000,
{
    let c = counter * (SCALE as int);
    assert(0 <= c <= 4_294_967_295_000) by (nonlinear_arith)
        requires
            0 <= counter <= 4_294_967_295u32,
            c == counter * 1000,
    ;
    assert(0 <= c / 5 <= 858_993_459_000) by (nonlinear_arith)
        requires
            0 <= c <= 4_294_967_295_000,
    ;
    if skill > 0 {
        let e = skill * (SCALE as int);
        assert(e >= 0) by (nonlinear_arith)
            requires
                skill > 0,
                e == skill * 1000,
        ;
        assert(e / 4 >= 0) by (nonlinear_arith)
            requires
                e >= 0,
        ;
    }
}

/// `a + b`, saturating at the counter type's maximum.
pub open spec fn sat_add_u32(a: u32, b: u32) -> u32 {
    if a + b > u32::MAX {
        u32::MAX
    } else {
        (a + b) as u32
    }
}

/// The state that every round starts from: ball centered in the field
/// with the fixed initial velocity, paddles re-centered vertically at
/// their margins, speed counter cleared.  Scores persist.  All centers
/// are measured from the field's own top-left corner, so a field away
/// from the origin still gets its ball back at its center.
pub open spec fn setup_round_of(g: PongLogic) -> PongLogic {
    let mid_y = g.field.top_left.y + div_tz(g.field.size.y as int, 2);
    PongLogic {
        field: g.field,
        ball: Ball {
            rect: Rect {
                top_left: Point {
                    x: (g.field.top_left.x + div_tz(g.field.size.x as int, 2) - div_tz(
                        g.ball.rect.size.x as int,
                        2,
                    )) as i64,
                    y: (mid_y - div_tz(g.ball.rect.size.y as int, 2)) as i64,
                },
                size: g.ball.rect.size,
            },
            speed: Point { x: BALL_SPEED_X, y: BALL_SPEED_Y },
        },
        left_pad: Pad {
            rect: Rect {
                top_left: Point {
                    x: (g.field.top_left.x + PAD_MARGIN) as i64,
                    y: (mid_y - div_tz(g.left_pad.rect.size.y as int, 2)) as i64,
                },
                size: g.left_pad.rect.size,
            },
        },
        right_pad: Pad {
            rect: Rect {
                top_left: Point {
                    x: (right_of(g.field) - PAD_MARGIN - g.right_pad.rect.size.x) as i64,
                    y: (mid_y - div_tz(g.right_pad.rect.size.y as int, 2)) as i64,
                },
                size: g.right_pad.rect.size,
            },
        },
        left_score: g.left_score,
        right_score: g.right_score,
        speed_counter: 0u32,
    }
}

/// The left paddle repositioned so its center sits at the cursor's
/// height, then clamped into the field.
pub open spec fn mouse_move_of(g: PongLogic, cursor: Point) -> PongLogic {
    let moved = with_y(
        g.left_pad.rect,
        cursor.y - div_tz(g.left_pad.rect.size.y as int, 2),
    );
    PongLogic { left_pad: Pad { rect: keep_inside_of(moved, g.field) }, ..g }
}

/// The per-tick scalars, computed once per frame and carried through the
/// sub-step loop.
pub struct PongTick {
    pub delta: i64,
    pub rubberbanded_ai_speed: i64,
    pub speed_boost: i64,
    pub normalized_ball_speed: Point,
    pub scored: i32,
}

/// One sub-step's fractional ratio: a full unit, except on the final
/// partial step, where it is what remains of the speed.
pub open spec fn ratio_of(i: int, speed: int) -> int {
    if (i + 1) * SCALE > speed {
        speed - i * SCALE
    } else {
        SCALE as int
    }
}

/// The ball advanced by one sub-step: its direction scaled by the ratio,
/// the tick delta and the speed boost.
pub open spec fn move_ball_of(g: PongLogic, dir: Point, ratio: int, delta: int, boost: int)
    -> PongLogic {
    let sx = fp_mul_spec(fp_mul_spec(fp_mul_spec(dir.x as int, ratio), delta), boost);
    let sy = fp_mul_spec(fp_mul_spec(fp_mul_spec(dir.y as int, ratio), delta), boost);
    PongLogic {
        ball: Ball {
            rect: Rect {
                top_left: Point {
                    x: (g.ball.rect.top_left.x + sx) as i64,
                    y: (g.ball.rect.top_left.y + sy) as i64,
                },
                size: g.ball.rect.size,
            },
            speed: g.ball.speed,
        },
        ..g
    }
}

/// The enemy paddle chasing the ball with this sub-step's movement
/// budget, then clamped into the field.
pub open spec fn enemy_ai_of(g: PongLogic, rubber: int, delta: int, alpha: int) -> PongLogic {
    let max_movement = fp_mul_spec(fp_mul_spec(rubber, delta), alpha);
    let movement = enemy_move_of(
        center_y_of(g.right_pad.rect),
        center_y_of(g.ball.rect),
        max_movement,
    );
    let moved = with_y(g.right_pad.rect, g.right_pad.rect.top_left.y + movement);
    PongLogic { right_pad: Pad { rect: keep_inside_of(moved, g.field) }, ..g }
}

/// One collision resolution applied to the state: the ball repositioned
/// and its direction corrected, paddle hits folded into the speed
/// counter, the score delta accumulated.
pub open spec fn physics_of(g: PongLogic, dir: Point, scored: i32) -> (PongLogic, Point, i32) {
    let r = resolve_spec(g.ball.rect, dir, g.field, g.left_pad.rect, g.right_pad.rect);
    let g2 = PongLogic {
        ball: Ball {
            rect: Rect { top_left: r.ball_position, size: g.ball.rect.size },
            speed: g.ball.speed,
        },
        speed_counter: if r.pad_hits > 0 {
            sat_add_u32(g.speed_counter, r.pad_hits)
        } else {
            g.speed_counter
        },
        ..g
    };
    (g2, r.ball_speed, (scored + r.scored) as i32)
}

/// One full sub-step: ball motion, then the enemy paddle, then collision
/// resolution.
pub open spec fn substep_of(
    g: PongLogic,
    dir: Point,
    scored: i32,
    i: int,
    speed: int,
    delta: int,
    rubber: int,
    boost: int,
) -> (PongLogic, Point, i32) {
    let ratio = ratio_of(i, speed);
    let g1 = move_ball_of(g, dir, ratio, delta, boost);
    let alpha = fp_div_spec(ratio, speed);
    let g2 = enemy_ai_of(g1, rubber, delta, alpha);
    physics_of(g2, dir, scored)
}

/// The sub-step loop from iteration `i` on: it runs while `i` whole units
/// stay below the speed and stops as soon as a score delta appears.
pub open spec fn run_substeps_of(
    g: PongLogic,
    dir: Point,
    scored: i32,
    i: int,
    speed: int,
    delta: int,
    rubber: int,
    boost: int,
) -> (PongLogic, Point, i32)
    decreases speed - i * SCALE + SCALE,
{
    if scored != 0 || i * SCALE >= speed {
        (g, dir, scored)
    } else {
        let s = substep_of(g, dir, scored, i, speed, delta, rubber, boost);
        run_substeps_of(s.0, s.1, s.2, i + 1, speed, delta, rubber, boost)
    }
}

/// Everything `PongTick::process` does: the sub-step loop, then the
/// velocity reconstruction (the pre-tick magnitude with the post-loop
/// direction signs), then scoring and the round reset if a score delta
/// was produced.
pub open spec fn process_of(g: PongLogic, t: PongTick) -> PongLogic {
    let speed = len_of(g.ball.speed);
    let r = run_substeps_of(
        g,
        t.normalized_ball_speed,
        t.scored,
        0,
        speed,
        t.delta as int,
        t.rubberbanded_ai_speed as int,
        t.speed_boost as int,
    );
    let g4 = PongLogic {
        ball: Ball {
            rect: r.0.ball.rect,
            speed: Point {
                x: (abs_of(r.0.ball.speed.x as int) * sign_of(r.1.x as int)) as i64,
                y: (abs_of(r.0.ball.speed.y as int) * sign_of(r.1.y as int)) as i64,
            },
        },
        ..r.0
    };
    if r.2 != 0 {
        let g5 = if r.2 > 0 {
            PongLogic { left_score: sat_add_u32(g4.left_score, 1), ..g4 }
        } else {
            PongLogic { right_score: sat_add_u32(g4.right_score, 1), ..g4 }
        };
        setup_round_of(g5)
    } else {
        g4
    }
}

/// The per-tick scalars exactly as `PongTick::new` derives them.
pub open spec fn tick_of(g: PongLogic, delta: i64) -> PongTick {
    PongTick {
        delta: delta,
        rubberbanded_ai_speed: rubber_of(skill_of(g)) as i64,
        speed_boost: boost_of(g.speed_counter, skill_of(g)) as i64,
        normalized_ball_speed: Point {
            x: norm_x_of(g.ball.speed) as i64,
            y: norm_y_of(g.ball.speed) as i64,
        },
        scored: 0,
    }
}

/// One frame of simulation, as a mathematical function of the state.
pub open spec fn tick_spec(g: PongLogic, delta: i64) -> PongLogic {
    process_of(g, tick_of(g, delta))
}

/// The score delta a tick's sub-step loop produces: -1, 0 or 1, since
/// the loop stops at the first score.
pub open spec fn tick_score_delta(g: PongLogic, delta: i64) -> i32 {
    let t = tick_of(g, delta);
    run_substeps_of(
        g,
        t.normalized_ball_speed,
        t.scored,
        0,
        len_of(g.ball.speed),
        t.delta as int,
        t.rubberbanded_ai_speed as int,
        t.speed_boost as int,
    ).2
}

/// Through the sub-step loop the travel direction only flips signs:
/// each component keeps its magnitude, and the stored ball velocity is
/// never touched.
proof fn lemma_run_flips_only(
    g: PongLogic,
    dir: Point,
    scored: i32,
    i: int,
    speed: int,
    delta: int,
    rubber: int,
    boost: int,
)
    requires
        abs_of(dir.x as int) <= SCALE,
        abs_of(dir.y as int) <= SCALE,
    ensures
        ({
            let r = run_substeps_of(g, dir, scored, i, speed, delta, rubber, boost);
            &&& abs_of(r.1.x as int) == abs_of(dir.x as int)
            &&& abs_of(r.1.y as int) == abs_of(dir.y as int)
            &&& r.0.ball.speed == g.ball.speed
        }),
    decreases speed - i * SCALE + SCALE,
{
    if scored != 0 || i * SCALE >= speed {
    } else {
        let s = substep_of(g, dir, scored, i, speed, delta, rubber, boost);
        assert(abs_of(s.1.x as int) == abs_of(dir.x as int) && abs_of(s.1.y as int) == abs_of(
            dir.y as int,
        ) && s.0.ball.speed == g.ball.speed);
        lemma_run_flips_only(s.0, s.1, s.2, i + 1, speed, delta, rubber, boost);
    }
}

/// Sub-stepped motion from inside the field never outruns its
/// undivided motion: each sub-step's displacement is bounded by its
/// scaled step (a wall snap only shortens a crossing), the direction
/// keeps its magnitude through bounces, and the step ratios sum to what
/// remains of the speed.  Stated scaled by the cube of the unit, to
/// stay in integers.
#[verifier::rlimit(100)]
proof fn lemma_run_displacement(
    g: PongLogic,
    dir: Point,
    scored: i32,
    i: int,
    speed: int,
    delta: int,
    rubber: int,
    boost: int,
)
    requires
        abs_of(g.field.top_left.x as int) <= COORD_LIMIT,
        abs_of(g.field.top_left.y as int) <= COORD_LIMIT,
        0 <= g.field.size.x <= SIZE_LIMIT,
        0 <= g.field.size.y <= SIZE_LIMIT,
        0 <= g.ball.rect.size.x <= g.field.size.x,
        0 <= g.ball.rect.size.y <= g.field.size.y,
        g.field.top_left.x <= g.ball.rect.top_left.x,
        right_of(g.ball.rect) <= right_of(g.field),
        g.field.top_left.y <= g.ball.rect.top_left.y,
        bottom_of(g.ball.rect) <= bottom_of(g.field),
        abs_of(dir.x as int) <= SCALE,
        abs_of(dir.y as int) <= SCALE,
        0 <= delta <= DELTA_LIMIT,
        SCALE <= boost <= 900_000_000_000,
    ensures
        ({
            let r = run_substeps_of(g, dir, scored, i, speed, delta, rubber, boost);
            &&& 1_000_000_000 * abs_of(r.0.ball.rect.top_left.x - g.ball.rect.top_left.x)
                <= abs_of(dir.x as int) * delta * boost * max_of(0, speed - i * SCALE)
            &&& 1_000_000_000 * abs_of(r.0.ball.rect.top_left.y - g.ball.rect.top_left.y)
                <= abs_of(dir.y as int) * delta * boost * max_of(0, speed - i * SCALE)
            &&& r.0.field == g.field
            &&& r.0.ball.rect.size == g.ball.rect.size
            &&& g.field.top_left.x <= r.0.ball.rect.top_left.x
            &&& right_of(r.0.ball.rect) <= right_of(g.field)
            &&& g.field.top_left.y <= r.0.ball.rect.top_left.y
            &&& bottom_of(r.0.ball.rect) <= bottom_of(g.field)
        }),
    decreases speed - i * SCALE + SCALE,
{
    if scored != 0 || i * SCALE >= speed {
        let m = max_of(0, speed - i * SCALE);
        assert(abs_of(dir.x as int) * delta * boost * m >= 0 && abs_of(dir.y as int) * delta
            * boost * m >= 0) by (nonlinear_arith)
            requires
                abs_of(dir.x as int) >= 0,
                abs_of(dir.y as int) >= 0,
                delta >= 0,
                boost >= 0,
                m >= 0,
        ;
    } else {
        let ratio = ratio_of(i, speed);
        assert(1 <= ratio <= SCALE);

        let ix = fp_mul_spec(dir.x as int, ratio);
        let iy = fp_mul_spec(dir.y as int, ratio);
        let cx = fp_mul_spec(ix, delta);
        let cy = fp_mul_spec(iy, delta);
        let sx = fp_mul_spec(cx, boost);
        let sy = fp_mul_spec(cy, boost);

        lemma_mul_le(abs_of(dir.x as int), ratio, 1000, 1000);
        lemma_mul_le(abs_of(dir.y as int), ratio, 1000, 1000);
        lemma_fp_mul_bound(dir.x as int, ratio, 1000);
        lemma_fp_mul_bound(dir.y as int, ratio, 1000);
        lemma_mul_le(abs_of(ix), delta, 1000, 10_000);
        lemma_mul_le(abs_of(iy), delta, 1000, 10_000);
        lemma_fp_mul_bound(ix, delta, 10_000);
        lemma_fp_mul_bound(iy, delta, 10_000);
        lemma_mul_le(abs_of(cx), boost, 10_000, 900_000_000_000);
        lemma_mul_le(abs_of(cy), boost, 10_000, 900_000_000_000);
        lemma_fp_mul_bound(cx, boost, 9_000_000_000_000);
        lemma_fp_mul_bound(cy, boost, 9_000_000_000_000);

        lemma_fp_mul_sign(dir.x as int, ratio);
        lemma_fp_mul_sign(dir.y as int, ratio);
        lemma_fp_mul_sign(ix, delta);
        lemma_fp_mul_sign(iy, delta);
        lemma_fp_mul_sign(cx, boost);
        lemma_fp_mul_sign(cy, boost);

        lemma_fp_mul_tight(dir.x as int, ratio);
        lemma_fp_mul_tight(dir.y as int, ratio);
        lemma_fp_mul_tight(ix, delta);
        lemma_fp_mul_tight(iy, delta);
        lemma_fp_mul_tight(cx, boost);
        lemma_fp_mul_tight(cy, boost);

        assert(1_000_000_000 * abs_of(sx) <= abs_of(dir.x as int) * ratio * delta * boost)
            by (nonlinear_arith)
            requires
                1000 * abs_of(ix) <= abs_of(dir.x as int) * ratio,
                1000 * abs_of(cx) <= abs_of(ix) * delta,
                1000 * abs_of(sx) <= abs_of(cx) * boost,
                abs_of(ix) >= 0,
                abs_of(cx) >= 0,
                abs_of(sx) >= 0,
                abs_of(dir.x as int) >= 0,
                ratio >= 0,
                delta >= 0,
                boost >= 0,
        ;
        assert(1_000_000_000 * abs_of(sy) <= abs_of(dir.y as int) * ratio * delta * boost)
            by (nonlinear_arith)
            requires
                1000 * abs_of(iy) <= abs_of(dir.y as int) * ratio,
                1000 * abs_of(cy) <= abs_of(iy) * delta,
                1000 * abs_of(sy) <= abs_of(cy) * boost,
                abs_of(iy) >= 0,
                abs_of(cy) >= 0,
                abs_of(sy) >= 0,
                abs_of(dir.y as int) >= 0,
                ratio >= 0,
                delta >= 0,
                boost >= 0,
        ;

        let g1 = move_ball_of(g, dir, ratio, delta, boost);
        assert(i64::MIN <= g.ball.rect.top_left.x + sx <= i64::MAX);
        assert(i64::MIN <= g.ball.rect.top_left.y + sy <= i64::MAX);
        assert(g1.ball.rect.top_left.x == g.ball.rect.top_left.x + sx);
        assert(g1.ball.rect.top_left.y == g.ball.rect.top_left.y + sy);

        let alpha = fp_div_spec(ratio, speed);
        let g2 = enemy_ai_of(g1, rubber, delta, alpha);
        assert(g2.ball == g1.ball && g2.field == g1.field && g2.left_pad == g1.left_pad);

        let s = substep_of(g, dir, scored, i, speed, delta, rubber, boost);
        let rr = resolve_spec(g2.ball.rect, dir, g2.field, g2.left_pad.rect, g2.right_pad.rect);
        assert(s.0.ball.rect.top_left == rr.ball_position && s.0.ball.rect.size
            == g.ball.rect.size && s.0.field == g.field);
        assert(abs_of(s.1.x as int) == abs_of(dir.x as int) && abs_of(s.1.y as int) == abs_of(
            dir.y as int,
        ));

        assert(abs_of(s.0.ball.rect.top_left.x - g.ball.rect.top_left.x) <= abs_of(sx)
            && g.field.top_left.x <= s.0.ball.rect.top_left.x
            && right_of(s.0.ball.rect) <= right_of(g.field));
        assert(abs_of(s.0.ball.rect.top_left.y - g.ball.rect.top_left.y) <= abs_of(sy)
            && g.field.top_left.y <= s.0.ball.rect.top_left.y
            && bottom_of(s.0.ball.rect) <= bottom_of(g.field));

        lemma_run_displacement(s.0, s.1, s.2, i + 1, speed, delta, rubber, boost);

        let r = run_substeps_of(g, dir, scored, i, speed, delta, rubber, boost);
        assert(r == run_substeps_of(s.0, s.1, s.2, i + 1, speed, delta, rubber, boost));

        let rest = max_of(0, speed - (i + 1) * SCALE);
        let whole = max_of(0, speed - i * SCALE);
        assert(ratio + rest == whole);
        assert(abs_of(r.0.ball.rect.top_left.x - g.ball.rect.top_left.x) <= abs_of(
            r.0.ball.rect.top_left.x - s.0.ball.rect.top_left.x,
        ) + abs_of(s.0.ball.rect.top_left.x - g.ball.rect.top_left.x));
        assert(abs_of(r.0.ball.rect.top_left.y - g.ball.rect.top_left.y) <= abs_of(
            r.0.ball.rect.top_left.y - s.0.ball.rect.top_left.y,
        ) + abs_of(s.0.ball.rect.top_left.y - g.ball.rect.top_left.y));

        assert(1_000_000_000 * abs_of(r.0.ball.rect.top_left.x - g.ball.rect.top_left.x)
            <= abs_of(dir.x as int) * delta * boost * whole) by (nonlinear_arith)
            requires
                abs_of(r.0.ball.rect.top_left.x - g.ball.rect.top_left.x) <= abs_of(
                    r.0.ball.rect.top_left.x - s.0.ball.rect.top_left.x,
                ) + abs_of(s.0.ball.rect.top_left.x - g.ball.rect.top_left.x),
                1_000_000_000 * abs_of(r.0.ball.rect.top_left.x - s.0.ball.rect.top_left.x)
                    <= abs_of(dir.x as int) * delta * boost * rest,
                abs_of(s.0.ball.rect.top_left.x - g.ball.rect.top_left.x) <= abs_of(sx),
                1_000_000_000 * abs_of(sx) <= abs_of(dir.x as int) * ratio * delta * boost,
                ratio + rest == whole,
                abs_of(dir.x as int) >= 0,
                ratio >= 0,
                rest >= 0,
                delta >= 0,
                boost >= 0,
        ;
        assert(1_000_000_000 * abs_of(r.0.ball.rect.top_left.y - g.ball.rect.top_left.y)
            <= abs_of(dir.y as int) * delta * boost * whole) by (nonlinear_arith)
            requires
                abs_of(r.0.ball.rect.top_left.y - g.ball.rect.top_left.y) <= abs_of(
                    r.0.ball.rect.top_left.y - s.0.ball.rect.top_left.y,
                ) + abs_of(s.0.ball.rect.top_left.y - g.ball.rect.top_left.y),
                1_000_000_000 * abs_of(r.0.ball.rect.top_left.y - s.0.ball.rect.top_left.y)
                    <= abs_of(dir.y as int) * delta * boost * rest,
                abs_of(s.0.ball.rect.top_left.y - g.ball.rect.top_left.y) <= abs_of(sy),
                1_000_000_000 * abs_of(sy) <= abs_of(dir.y as int) * ratio * delta * boost,
                ratio + rest == whole,
                abs_of(dir.y as int) >= 0,
                ratio >= 0,
                rest >= 0,
                delta >= 0,
                boost >= 0,
        ;
    }
}

/// A tick that produces no score moves the ball by a bounded,
/// deterministic offset: on each axis, the displacement scaled by the
/// cube of the unit is at most `SCALE * delta * boost * speed` — the
/// travel the undivided motion step would make.  The ball must start
/// inside the field; a wall crossing is snapped back and only shortens
/// the travel.
pub proof fn lemma_tick_displacement_bound(g: PongLogic, delta: i64)
    requires
        wf(g),
        0 <= delta <= DELTA_LIMIT,
        g.field.top_left.x <= g.ball.rect.top_left.x,
        right_of(g.ball.rect) <= right_of(g.field),
        g.field.top_left.y <= g.ball.rect.top_left.y,
        bottom_of(g.ball.rect) <= bottom_of(g.field),
        tick_score_delta(g, delta) == 0,
    ensures
        1_000_000_000 * abs_of(tick_spec(g, delta).ball.rect.top_left.x - g.ball.rect.top_left.x)
            <= SCALE * delta * boost_of(g.speed_counter, skill_of(g)) * len_of(g.ball.speed),
        1_000_000_000 * abs_of(tick_spec(g, delta).ball.rect.top_left.y - g.ball.rect.top_left.y)
            <= SCALE * delta * boost_of(g.speed_counter, skill_of(g)) * len_of(g.ball.speed),
{
    let t = tick_of(g, delta);
    lemma_norm_bounds(g.ball.speed);
    lemma_boost_bounds(g.speed_counter, skill_of(g));
    let speed = len_of(g.ball.speed);
    lemma_run_displacement(
        g,
        t.normalized_ball_speed,
        0,
        0,
        speed,
        delta as int,
        t.rubberbanded_ai_speed as int,
        t.speed_boost as int,
    );
    let boost = boost_of(g.speed_counter, skill_of(g));
    assert(abs_of(t.normalized_ball_speed.x as int) * (delta as int) * boost * speed <= (
    SCALE as int) * delta * boost * speed && abs_of(t.normalized_ball_speed.y as int) * (
    delta as int) * boost * speed <= (SCALE as int) * delta * boost * speed) by (nonlinear_arith)
        requires
            abs_of(t.normalized_ball_speed.x as int) <= 1000,
            abs_of(t.normalized_ball_speed.y as int) <= 1000,
            abs_of(t.normalized_ball_speed.x as int) >= 0,
            abs_of(t.normalized_ball_speed.y as int) >= 0,
            delta >= 0,
            boost >= 0,
            speed >= 0,
    ;
}

/// A tick that produces no score keeps the ball's velocity magnitude on
/// each axis: collisions only flip per-axis signs, and the post-loop
/// reconstruction pairs the pre-tick magnitudes with the final
/// direction's signs.  The law asks the axis's fixed-point direction to
/// be nonzero: a velocity component more than a thousand times smaller
/// than the speed normalizes to zero, and the reconstruction then zeroes
/// that component.
pub proof fn lemma_tick_preserves_speed_magnitude(g: PongLogic, delta: i64)
    requires
        wf(g),
        0 <= delta <= DELTA_LIMIT,
        tick_score_delta(g, delta) == 0,
    ensures
        norm_x_of(g.ball.speed) != 0 ==> abs_of(tick_spec(g, delta).ball.speed.x as int) == abs_of(
            g.ball.speed.x as int,
        ),
        norm_y_of(g.ball.speed) != 0 ==> abs_of(tick_spec(g, delta).ball.speed.y as int) == abs_of(
            g.ball.speed.y as int,
        ),
{
    let t = tick_of(g, delta);
    lemma_norm_bounds(g.ball.speed);
    lemma_run_flips_only(
        g,
        t.normalized_ball_speed,
        0,
        0,
        len_of(g.ball.speed),
        t.delta as int,
        t.rubberbanded_ai_speed as int,
        t.speed_boost as int,
    );
}

impl PongLogic {
    pub fn new(field: Rect, ball: Ball, left_pad: Pad, right_pad: Pad) -> (r: PongLogic)
        ensures
            r.field == field,
            r.ball == ball,
            r.left_pad == left_pad,
            r.right_pad == right_pad,
            r.left_score == 0,
            r.right_score == 0,
            r.speed_counter == 0,
    {
        PongLogic {
            field,
            ball,
            left_pad,
            right_pad,
            left_score: 0,
            right_score: 0,
            speed_counter: 0,
        }
    }

    /// Re-center ball and paddles and clear the speed counter, as at the
    /// start of every round.
    pub fn setup_round_start(&mut self)
        requires
            wf(*old(self)),
        ensures
            *final(self) == setup_round_of(*old(self)),
            wf(*final(self)),
    {
        let mid_x: i64 = self.field.top_left.x + ((self.field.size.x as u64 / 2) as i64);
        let mid_y: i64 = self.field.top_left.y + ((self.field.size.y as u64 / 2) as i64);

        self.ball.rect.top_left.x = mid_x - ((self.ball.rect.size.x as u64 / 2) as i64);
        self.ball.rect.top_left.y = mid_y - ((self.ball.rect.size.y as u64 / 2) as i64);
        self.ball.speed = Point::new(BALL_SPEED_X, BALL_SPEED_Y);

        self.left_pad.rect.top_left.x = self.field.top_left.x + PAD_MARGIN;
        self.left_pad.rect.top_left.y = mid_y - ((self.left_pad.rect.size.y as u64 / 2) as i64);

        self.right_pad.rect.top_left.x = self.field.top_left.x + self.field.size.x - PAD_MARGIN
            - self.right_pad.rect.size.x;
        self.right_pad.rect.top_left.y = mid_y - ((self.right_pad.rect.size.y as u64 / 2) as i64);

        self.speed_counter = 0;
    }

    /// Reposition the left paddle's center to the cursor's height and
    /// clamp it inside the field.
    pub fn handle_mouse_move(&mut self, cursor: Point)
        requires
            wf(*old(self)),
            abs_of(cursor.y as int) <= POS_LIMIT,
        ensures
            *final(self) == mouse_move_of(*old(self), cursor),
            wf(*final(self)),
    {
        let half_h: i64 = ((self.left_pad.rect.size.y as u64) / 2) as i64;
        self.left_pad.rect.top_left.y = cursor.y - half_h;
        let field = self.field;
        proof {
            lemma_keep_inside_contains(self.left_pad.rect, field);
        }
        self.left_pad.rect.keep_inside(field);
    }

    /// The player's lead: own score minus the enemy's, as a signed value.
    pub fn player_skill_diff(&self, player_score: u32, enemy_score: u32) -> (r: i64)
        ensures
            r == player_score - enemy_score,
    {
        player_score as i64 - enemy_score as i64
    }

    /// The enemy paddle's rubber-banded speed for the given score lead.
    pub fn rubberbanded_ai_speed(&self, player_skill: i64) -> (r: i64)
        requires
            abs_of(player_skill as int) <= 5_000_000_000,
        ensures
            r == rubber_of(player_skill as int),
            0 <= r <= 510_000_000_000_000,
    {
        if player_skill > 0 {
            let factor: i64 = SCALE + ((player_skill as u64 * 1000 / 4) as i64);
            proof {
                lemma_mul_le(AI_SPEED as int, factor as int, 400_000, 1_250_000_001_000);
                lemma_fp_mul_bound(AI_SPEED as int, factor as int, 510_000_000_000_000);
                lemma_fp_mul_sign(AI_SPEED as int, factor as int);
            }
            fp_mul(AI_SPEED, factor)
        } else if player_skill < 0 {
            let factor: i64 = SCALE + (((-player_skill) as u64) * 1000 / 4) as i64;
            proof {
                lemma_div_tz_bound(AI_SPEED * SCALE, factor as int, 400_000_000);
                assert(div_tz(AI_SPEED * SCALE, factor as int) >= 0) by {
                    assert(AI_SPEED * SCALE >= 0);
                    assert((AI_SPEED * SCALE) / (factor as int) >= 0) by (nonlinear_arith)
                        requires
                            factor > 0,
                    ;
                }
            }
            let slowed = fp_div(AI_SPEED, factor);
            if slowed < 1 {
                1
            } else {
                slowed
            }
        } else {
            AI_SPEED
        }
    }

    /// The ball's speed boost for the given score lead and the current
    /// rally counter.
    pub fn speed_boost(&self, player_skill: i64) -> (r: i64)
        requires
            abs_of(player_skill as int) <= 5_000_000_000,
        ensures
            r == boost_of(self.speed_counter, player_skill as int),
            SCALE <= r <= 900_000_000_000,
    {
        let base: i64 = SCALE + ((self.speed_counter as u64 * 1000 / 5) as i64);
        if player_skill > 0 {
            let quarter: i64 = (player_skill as u64 * 1000 / 4) as i64;
            let extra: i64 = if quarter <= SCALE {
                quarter
            } else {
                SCALE
            };
            base + extra
        } else {
            base
        }
    }

    /// Advance the simulation by one frame.
    pub fn handle_game_tick(&mut self, delta: i64)
        requires
            wf(*old(self)),
            0 <= delta <= DELTA_LIMIT,
        ensures
            *final(self) == tick_spec(*old(self), delta),
            wf(*final(self)),
    {
        let mut tick = PongTick::new(&*self, delta);
        tick.process(self);
    }
}

impl PongTick {
    /// Derive the per-tick scalars from the state: the score lead, the
    /// rubber-banded enemy speed, the speed boost, and the normalized
    /// ball direction.
    pub fn new(logic: &PongLogic, delta: i64) -> (t: PongTick)
        requires
            wf(*logic),
        ensures
            t == tick_of(*logic, delta),
            0 <= t.rubberbanded_ai_speed <= 510_000_000_000_000,
            SCALE <= t.speed_boost <= 900_000_000_000,
            abs_of(t.normalized_ball_speed.x as int) <= SCALE,
            abs_of(t.normalized_ball_speed.y as int) <= SCALE,
            t.scored == 0,
            t.delta == delta,
    {
        let player_skill = logic.player_skill_diff(logic.left_score, logic.right_score);
        let rubberbanded_ai_speed = logic.rubberbanded_ai_speed(player_skill);
        let speed_boost = logic.speed_boost(player_skill);
        let normalized = logic.ball.speed.normalized();

        PongTick {
            delta,
            rubberbanded_ai_speed,
            speed_boost,
            normalized_ball_speed: normalized,
            scored: 0,
        }
    }

    /// Run the whole tick: the sub-step loop (one whole unit of ball
    /// motion per iteration, the final one fractional), then the velocity
    /// reconstruction, then scoring and its round reset.
    #[verifier::loop_isolation(false)]
    #[verifier::rlimit(100)]
    pub fn process(&mut self, logic: &mut PongLogic)
        requires
            wf(*old(logic)),
            old(self).scored == 0,
            0 <= old(self).delta <= DELTA_LIMIT,
            0 <= old(self).rubberbanded_ai_speed <= 510_000_000_000_000,
            SCALE <= old(self).speed_boost <= 900_000_000_000,
            abs_of(old(self).normalized_ball_speed.x as int) <= SCALE,
            abs_of(old(self).normalized_ball_speed.y as int) <= SCALE,
        ensures
            *final(logic) == process_of(*old(logic), *old(self)),
            wf(*final(logic)),
    {
        let ghost g0 = *logic;
        let ghost t0 = *self;
        let speed: i64 = logic.ball.speed.length();
        let mut i: i64 = 0;

        while i * SCALE < speed && self.scored == 0
            invariant
                0 <= i,
                i * SCALE <= speed + SCALE,
                self.delta == t0.delta,
                self.rubberbanded_ai_speed == t0.rubberbanded_ai_speed,
                self.speed_boost == t0.speed_boost,
                abs_of(self.normalized_ball_speed.x as int) <= SCALE,
                abs_of(self.normalized_ball_speed.y as int) <= SCALE,
                abs_of(self.scored as int) <= 1,
                logic.field == g0.field,
                logic.left_pad == g0.left_pad,
                logic.left_score == g0.left_score,
                logic.right_score == g0.right_score,
                logic.ball.speed == g0.ball.speed,
                logic.ball.rect.size == g0.ball.rect.size,
                logic.right_pad.rect.size == g0.right_pad.rect.size,
                abs_of(logic.right_pad.rect.top_left.x as int) <= POS_LIMIT,
                abs_of(logic.right_pad.rect.top_left.y as int) <= POS_LIMIT,
                min_of(g0.ball.rect.top_left.x as int, g0.field.top_left.x as int)
                    <= logic.ball.rect.top_left.x as int <= max_of(
                    g0.ball.rect.top_left.x as int,
                    right_of(g0.field),
                ),
                min_of(g0.ball.rect.top_left.y as int, g0.field.top_left.y as int)
                    <= logic.ball.rect.top_left.y as int <= max_of(
                    g0.ball.rect.top_left.y as int,
                    bottom_of(g0.field),
                ),
                run_substeps_of(
                    g0,
                    t0.normalized_ball_speed,
                    0,
                    0,
                    speed as int,
                    t0.delta as int,
                    t0.rubberbanded_ai_speed as int,
                    t0.speed_boost as int,
                ) == run_substeps_of(
                    *logic,
                    self.normalized_ball_speed,
                    self.scored,
                    i as int,
                    speed as int,
                    t0.delta as int,
                    t0.rubberbanded_ai_speed as int,
                    t0.speed_boost as int,
                ),
            decreases speed - i * SCALE + SCALE,
        {
            let ghost g_in = *logic;
            let ghost dir_in = self.normalized_ball_speed;

            let mut iteration_ratio: i64 = SCALE;
            if (i + 1) * SCALE > speed {
                iteration_ratio = speed - i * SCALE;
            }
            assert(iteration_ratio == ratio_of(i as int, speed as int));
            assert(1 <= iteration_ratio <= SCALE);

            proof {
                lemma_mul_le(abs_of(dir_in.x as int), iteration_ratio as int, 1000, 1000);
                lemma_mul_le(abs_of(dir_in.y as int), iteration_ratio as int, 1000, 1000);
                lemma_fp_mul_bound(dir_in.x as int, iteration_ratio as int, 1000);
                lemma_fp_mul_bound(dir_in.y as int, iteration_ratio as int, 1000);
                lemma_fp_mul_sign(dir_in.x as int, iteration_ratio as int);
                lemma_fp_mul_sign(dir_in.y as int, iteration_ratio as int);
            }
            let iteration = self.normalized_ball_speed.mul_fp(iteration_ratio);
            proof {
                lemma_mul_le(abs_of(iteration.x as int), t0.delta as int, 1000, 10_000);
                lemma_mul_le(abs_of(iteration.y as int), t0.delta as int, 1000, 10_000);
                lemma_fp_mul_bound(iteration.x as int, t0.delta as int, 10_000);
                lemma_fp_mul_bound(iteration.y as int, t0.delta as int, 10_000);
                lemma_fp_mul_sign(iteration.x as int, t0.delta as int);
                lemma_fp_mul_sign(iteration.y as int, t0.delta as int);
            }
            let scaled = iteration.mul_fp(self.delta);
            proof {
                lemma_mul_le(abs_of(scaled.x as int), t0.speed_boost as int, 10_000, 900_000_000_000);
                lemma_mul_le(abs_of(scaled.y as int), t0.speed_boost as int, 10_000, 900_000_000_000);
                lemma_fp_mul_bound(scaled.x as int, t0.speed_boost as int, 9_000_000_000_000);
                lemma_fp_mul_bound(scaled.y as int, t0.speed_boost as int, 9_000_000_000_000);
                lemma_fp_mul_sign(scaled.x as int, t0.speed_boost as int);
                lemma_fp_mul_sign(scaled.y as int, t0.speed_boost as int);
            }
            let step = scaled.mul_fp(self.speed_boost);
            logic.ball.rect.top_left = logic.ball.rect.top_left.add(step);
            let ghost g_moved = *logic;
            proof {
                assert(g_moved == move_ball_of(
                    g_in,
                    dir_in,
                    iteration_ratio as int,
                    t0.delta as int,
                    t0.speed_boost as int,
                ));
            }

            proof {
                lemma_div_tz_bound(iteration_ratio * SCALE, speed as int, 1_000_000);
                assert((iteration_ratio * SCALE) / (speed as int) >= 0) by (nonlinear_arith)
                    requires
                        iteration_ratio >= 0,
                        SCALE == 1000,
                        speed >= 1,
                ;
            }
            let alpha = fp_div(iteration_ratio, speed);
            self.compute_enemy_ai(logic, alpha);
            let ghost g_ai = *logic;
            proof {
                assert(g_ai == enemy_ai_of(
                    g_moved,
                    t0.rubberbanded_ai_speed as int,
                    t0.delta as int,
                    alpha as int,
                ));
            }

            self.compute_physics(logic);

            proof {
                let s = substep_of(
                    g_in,
                    dir_in,
                    0,
                    i as int,
                    speed as int,
                    t0.delta as int,
                    t0.rubberbanded_ai_speed as int,
                    t0.speed_boost as int,
                );
                assert(s == physics_of(g_ai, dir_in, 0));
                assert(s.0 == *logic && s.1 == self.normalized_ball_speed && s.2 == self.scored);
                assert(run_substeps_of(
                    g_in,
                    dir_in,
                    0,
                    i as int,
                    speed as int,
                    t0.delta as int,
                    t0.rubberbanded_ai_speed as int,
                    t0.speed_boost as int,
                ) == run_substeps_of(
                    s.0,
                    s.1,
                    s.2,
                    i as int + 1,
                    speed as int,
                    t0.delta as int,
                    t0.rubberbanded_ai_speed as int,
                    t0.speed_boost as int,
                ));
            }

            i = i + 1;
        }

        let signs = self.normalized_ball_speed.signum();
        let magnitudes = logic.ball.speed.abs();
        proof {
            assert(i64::MIN <= magnitudes.x * signs.x <= i64::MAX && i64::MIN <= magnitudes.y
                * signs.y <= i64::MAX && abs_of(magnitudes.x * signs.x) <= 1_000_000_000 && abs_of(
                magnitudes.y * signs.y,
            ) <= 1_000_000_000) by (nonlinear_arith)
                requires
                    0 <= magnitudes.x <= 1_000_000_000,
                    0 <= magnitudes.y <= 1_000_000_000,
                    -1 <= signs.x <= 1,
                    -1 <= signs.y <= 1,
            ;
        }
        logic.ball.speed = magnitudes.mul_components(signs);

        if self.scored != 0 {
            if self.scored > 0 {
                logic.left_score = if logic.left_score < u32::MAX {
                    logic.left_score + 1
                } else {
                    u32::MAX
                };
            } else {
                logic.right_score = if logic.right_score < u32::MAX {
                    logic.right_score + 1
                } else {
                    u32::MAX
                };
            }
            logic.setup_round_start();
        }
        assert(*logic == process_of(g0, t0));
    }

    /// Move the enemy paddle by this sub-step's budget and clamp it into
    /// the field.  `alpha` is the fraction of the tick this sub-step
    /// covers, divided by the speed.
    pub fn compute_enemy_ai(&self, logic: &mut PongLogic, alpha: i64)
        requires
            wf_within(*old(logic), 2_000_000_000_000_000),
            0 <= alpha <= 1_000_000,
            0 <= self.delta <= DELTA_LIMIT,
            0 <= self.rubberbanded_ai_speed <= 510_000_000_000_000,
        ensures
            *final(logic) == enemy_ai_of(
                *old(logic),
                self.rubberbanded_ai_speed as int,
                self.delta as int,
                alpha as int,
            ),
            final(logic).field == old(logic).field,
            final(logic).ball == old(logic).ball,
            final(logic).left_pad == old(logic).left_pad,
            final(logic).left_score == old(logic).left_score,
            final(logic).right_score == old(logic).right_score,
            final(logic).speed_counter == old(logic).speed_counter,
            final(logic).right_pad.rect.size == old(logic).right_pad.rect.size,
            final(logic).right_pad.rect.top_left.x >= old(logic).field.top_left.x,
            final(logic).right_pad.rect.top_left.y >= old(logic).field.top_left.y,
            right_of(final(logic).right_pad.rect) <= right_of(old(logic).field),
            bottom_of(final(logic).right_pad.rect) <= bottom_of(old(logic).field),
    {
        proof {
            lemma_mul_le(
                self.rubberbanded_ai_speed as int,
                self.delta as int,
                510_000_000_000_000,
                10_000,
            );
            lemma_fp_mul_bound(
                self.rubberbanded_ai_speed as int,
                self.delta as int,
                5_100_000_000_000_000,
            );
            lemma_fp_mul_sign(self.rubberbanded_ai_speed as int, self.delta as int);
        }
        let rd = fp_mul(self.rubberbanded_ai_speed, self.delta);
        proof {
            lemma_mul_le(abs_of(rd as int), alpha as int, 5_100_000_000_000_000, 1_000_000);
            lemma_fp_mul_bound(rd as int, alpha as int, 5_100_000_000_000_000_000);
            lemma_fp_mul_sign(rd as int, alpha as int);
        }
        let max_movement = fp_mul(rd, alpha);
        let strategy = EnemyStrategy::new(&logic.right_pad, &logic.ball, max_movement);
        logic.right_pad.rect.top_left.y = logic.right_pad.rect.top_left.y + strategy.movement;
        let field = logic.field;
        proof {
            lemma_keep_inside_contains(logic.right_pad.rect, field);
        }
        logic.right_pad.rect.keep_inside(field);
    }

    /// Resolve collisions for the current sub-step: reposition the ball,
    /// correct the travel direction, count paddle hits into the speed
    /// counter (saturating) and accumulate the score delta.
    pub fn compute_physics(&mut self, logic: &mut PongLogic)
        requires
            wf_within(*old(logic), 2_000_000_000_000_000),
            abs_of(old(self).normalized_ball_speed.x as int) <= SCALE,
            abs_of(old(self).normalized_ball_speed.y as int) <= SCALE,
            abs_of(old(self).scored as int) <= 1000,
        ensures
            *final(logic) == physics_of(
                *old(logic),
                old(self).normalized_ball_speed,
                old(self).scored,
            ).0,
            final(self).normalized_ball_speed == physics_of(
                *old(logic),
                old(self).normalized_ball_speed,
                old(self).scored,
            ).1,
            final(self).scored == physics_of(
                *old(logic),
                old(self).normalized_ball_speed,
                old(self).scored,
            ).2,
            final(self).delta == old(self).delta,
            final(self).rubberbanded_ai_speed == old(self).rubberbanded_ai_speed,
            final(self).speed_boost == old(self).speed_boost,
    {
        let results = CollisionResults::new(
            &logic.ball,
            &self.normalized_ball_speed,
            &logic.field,
            &logic.left_pad,
            &logic.right_pad,
        );

        logic.ball.rect.top_left = results.ball_position;
        self.normalized_ball_speed = results.ball_speed;

        if results.pad_hits > 0 {
            if logic.speed_counter <= u32::MAX - results.pad_hits {
                logic.speed_counter = logic.speed_counter + results.pad_hits;
            } else {
                logic.speed_counter = u32::MAX;
            }
        }

        if results.scored != 0 {
            self.scored = self.scored + results.scored;
        }
    }
}

} // verus!
