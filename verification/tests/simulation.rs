//! Tests for the enemy strategy, the collision resolver and the tick
//! driver.  Coordinates are in thousandths of a pixel.

use pong_core::ai::EnemyStrategy;
use pong_core::ball::Ball;
use pong_core::collisions::CollisionResults;
use pong_core::pad::Pad;
use pong_core::point::Point;
use pong_core::pong::PongLogic;
use pong_core::rect::Rect;

/// The state the game starts in: a 640x480 field at the origin, the
/// standard paddle and ball sizes, and a finished round setup.
fn standard_game() -> PongLogic {
    let field = Rect::with_xywh(0, 0, 640_000, 480_000);
    let pad_size = Point::new(10_000, 50_000);
    let ball_size = Point::new(10_000, 10_000);
    let mut logic = PongLogic::new(
        field,
        Ball::new(Rect::with_size(ball_size), Point::zero()),
        Pad::new(Rect::with_size(pad_size)),
        Pad::new(Rect::with_size(pad_size)),
    );
    logic.setup_round_start();
    logic
}

#[test]
pub fn test_enemy_strategy() {
    let max_movement = 5_000;

    let pad = Pad { rect: Rect::with_xywh(0, 100_000, 10_000, 50_000) };

    let mut ball = Ball {
        rect: Rect::with_xywh(0, 0, 10_000, 10_000),
        speed: Point::new(10_000, 10_000),
    };

    {
        let strategy = EnemyStrategy::new(&pad, &ball, max_movement);
        assert!(strategy.movement < 0);
    }

    ball.rect.set_y(200_000);
    {
        let strategy = EnemyStrategy::new(&pad, &ball, max_movement);
        assert!(strategy.movement > 0);
    }

    ball.rect.set_y(-ball.rect.height() / 2 + pad.rect.center().y);
    {
        let strategy = EnemyStrategy::new(&pad, &ball, max_movement);
        assert!(strategy.movement == 0);
    }
}

#[test]
fn test_enemy_strategy_never_exceeds_budget() {
    let max_movement = 5_000;
    // Ball far below the paddle: the full budget is spent, no more.
    let pad = Pad { rect: Rect::with_xywh(0, 0, 10_000, 50_000) };
    let ball = Ball {
        rect: Rect::with_xywh(0, 400_000, 10_000, 10_000),
        speed: Point::zero(),
    };
    let strategy = EnemyStrategy::new(&pad, &ball, max_movement);
    assert_eq!(strategy.movement, max_movement);

    // Ball just below: movement stops at the remaining distance.
    let near_ball = Ball {
        rect: Rect::with_xywh(0, 22_000, 10_000, 10_000),
        speed: Point::zero(),
    };
    // Pad center 25_000, ball center 27_000: two units of distance.
    let strategy = EnemyStrategy::new(&pad, &near_ball, max_movement);
    assert_eq!(strategy.movement, 2_000);
}

#[test]
pub fn test_collision_results() {
    let field = Rect::with_xywh(0, 0, 640_000, 480_000);
    let left_pad = Pad::new(Rect::with_xywh(10_000, 0, 10_000, 50_000));
    let right_pad = Pad::new(Rect::with_xywh(620_000, 0, 10_000, 50_000));
    let mut ball = Ball::new(
        Rect::with_xywh(300_000, 200_000, 10_000, 10_000),
        Point::new(5_000, 5_000),
    );
    let mut ball_speed = Point::new(5_000, 5_000);

    // test no collision
    {
        let collision_results =
            CollisionResults::new(&ball, &ball_speed, &field, &left_pad, &right_pad);
        assert_eq!(collision_results.pad_hits, 0);
        assert_eq!(collision_results.scored, 0);
        assert_eq!(collision_results.ball_position, ball.rect.top_left);
        assert_eq!(collision_results.ball_speed, ball_speed);
    }

    // left collision
    {
        ball.rect.top_left = left_pad.rect.top_left;
        ball_speed.x = -5_000;
        let collision_results =
            CollisionResults::new(&ball, &ball_speed, &field, &left_pad, &right_pad);
        assert_eq!(collision_results.pad_hits, 1);
        assert_eq!(collision_results.scored, 0);
        assert_eq!(collision_results.ball_position, ball.rect.top_left);
        assert_eq!(
            collision_results.ball_speed,
            Point::new(ball_speed.x * -1, ball_speed.y)
        );
    }

    // right collision
    {
        ball.rect.top_left = right_pad.rect.top_left;
        ball_speed.x = 5_000;
        let collision_results =
            CollisionResults::new(&ball, &ball_speed, &field, &left_pad, &right_pad);
        assert_eq!(collision_results.pad_hits, 1);
        assert_eq!(collision_results.scored, 0);
        assert_eq!(collision_results.ball_position, ball.rect.top_left);
        assert_eq!(
            collision_results.ball_speed,
            Point::new(ball_speed.x * -1, ball_speed.y)
        );
    }

    // left score
    {
        ball.rect.top_left = Point::new(field.x() - 1_000, field.y());
        ball_speed.x = -5_000;
        let collision_results =
            CollisionResults::new(&ball, &ball_speed, &field, &left_pad, &right_pad);
        assert_eq!(collision_results.pad_hits, 0);
        assert_eq!(collision_results.scored, -1);
        assert_eq!(collision_results.ball_position, field.top_left);
        assert_eq!(
            collision_results.ball_speed,
            Point::new(ball_speed.x * -1, ball_speed.y)
        );
    }

    // right score
    {
        ball.rect.set_right(field.right() + 1_000);
        ball_speed.x = 5_000;
        let collision_results =
            CollisionResults::new(&ball, &ball_speed, &field, &left_pad, &right_pad);
        assert_eq!(collision_results.pad_hits, 0);
        assert_eq!(collision_results.scored, 1);
        assert_eq!(
            collision_results.ball_position,
            Point::new(field.right() - ball.rect.width(), field.y())
        );
        assert_eq!(
            collision_results.ball_speed,
            Point::new(ball_speed.x * -1, ball_speed.y)
        );
    }

    // top collision
    {
        ball.rect.top_left = Point::new(field.x(), field.y() - 1_000);
        ball_speed = Point::new(0, -1_000);
        let collision_results =
            CollisionResults::new(&ball, &ball_speed, &field, &left_pad, &right_pad);
        assert_eq!(collision_results.pad_hits, 0);
        assert_eq!(collision_results.scored, 0);
        assert_eq!(collision_results.ball_position, field.top_left);
        assert_eq!(collision_results.ball_speed, ball_speed.mul_fp(-1_000));
    }

    // bottom collision
    {
        ball.rect.top_left = Point::new(field.x(), field.bottom() + 1_000);
        ball_speed = Point::new(0, 1_000);
        let collision_results =
            CollisionResults::new(&ball, &ball_speed, &field, &left_pad, &right_pad);
        assert_eq!(collision_results.pad_hits, 0);
        assert_eq!(collision_results.scored, 0);
        assert_eq!(
            collision_results.ball_position,
            Point::new(field.x(), field.bottom() - ball.rect.height())
        );
        assert_eq!(collision_results.ball_speed, ball_speed.mul_fp(-1_000));
    }
}

#[test]
fn test_collision_corner() {
    // Crossing top and left edges in the same step: both axes snap and
    // flip, and the left crossing scores.
    let field = Rect::with_xywh(0, 0, 640_000, 480_000);
    let left_pad = Pad::new(Rect::with_xywh(10_000, 200_000, 10_000, 50_000));
    let right_pad = Pad::new(Rect::with_xywh(620_000, 200_000, 10_000, 50_000));
    let ball = Ball::new(
        Rect::with_xywh(-1_000, -1_000, 10_000, 10_000),
        Point::new(-5_000, -5_000),
    );
    let speed = Point::new(-5_000, -5_000);
    let results = CollisionResults::new(&ball, &speed, &field, &left_pad, &right_pad);
    assert_eq!(results.ball_position, Point::new(0, 0));
    assert_eq!(results.ball_speed, Point::new(5_000, 5_000));
    assert_eq!(results.scored, -1);
    assert_eq!(results.pad_hits, 0);
}

#[test]
fn test_setup_round_positions() {
    let logic = standard_game();
    // Ball centered in the field, with the fixed initial velocity.
    assert_eq!(logic.ball.rect.top_left, Point::new(315_000, 235_000));
    assert_eq!(logic.ball.speed, Point::new(300_000, -300_000));
    // Paddles at their margins, centered vertically.
    assert_eq!(logic.left_pad.rect.top_left, Point::new(10_000, 215_000));
    assert_eq!(logic.right_pad.rect.top_left, Point::new(620_000, 215_000));
    assert_eq!(logic.left_score, 0);
    assert_eq!(logic.right_score, 0);
    assert_eq!(logic.speed_counter, 0);
}

#[test]
fn test_setup_round_centers_in_offset_field() {
    // A field away from the origin: the reset still centers against the
    // field itself, not against the origin.
    let field = Rect::with_xywh(100_000, 50_000, 640_000, 480_000);
    let pad_size = Point::new(10_000, 50_000);
    let ball_size = Point::new(10_000, 10_000);
    let mut logic = PongLogic::new(
        field,
        Ball::new(Rect::with_size(ball_size), Point::zero()),
        Pad::new(Rect::with_size(pad_size)),
        Pad::new(Rect::with_size(pad_size)),
    );
    logic.setup_round_start();

    assert_eq!(logic.ball.rect.center(), field.center());
    assert_eq!(logic.left_pad.rect.center().y, field.center().y);
    assert_eq!(logic.right_pad.rect.center().y, field.center().y);
    assert_eq!(logic.left_pad.rect.x(), field.x() + 10_000);
    assert_eq!(logic.right_pad.rect.right(), field.right() - 10_000);
}

#[test]
fn test_player_skill_diff() {
    let logic = standard_game();
    assert_eq!(logic.player_skill_diff(5, 2), 3);
    assert_eq!(logic.player_skill_diff(2, 5), -3);
    assert_eq!(logic.player_skill_diff(4, 4), 0);
}

#[test]
fn test_rubberbanded_ai_speed() {
    let logic = standard_game();
    // Even score: the base speed of 400 px/t.
    assert_eq!(logic.rubberbanded_ai_speed(0), 400_000);
    // Human two ahead: 400 * (1 + 0.25*2) = 600 px/t.
    assert_eq!(logic.rubberbanded_ai_speed(2), 600_000);
    // Enemy two ahead: 400 / 1.5 = 266.666 px/t, truncated.
    assert_eq!(logic.rubberbanded_ai_speed(-2), 266_666);
    // An astronomic deficit floors at one coordinate unit: the enemy
    // paddle never stands entirely still.
    assert_eq!(logic.rubberbanded_ai_speed(-2_000_000_000), 1);
}

#[test]
fn test_speed_boost() {
    let mut logic = standard_game();
    logic.speed_counter = 7;
    // 1 + 7/5 = 2.4.
    assert_eq!(logic.speed_boost(0), 2_400);
    assert_eq!(logic.speed_boost(-3), 2_400);
    // Plus min(2/4, 1) = 0.5 when the human is two ahead.
    assert_eq!(logic.speed_boost(2), 2_900);
    // The extra term is capped at +1.0 however far ahead.
    assert_eq!(logic.speed_boost(10), 3_400);
}

#[test]
fn test_handle_mouse_move() {
    let mut logic = standard_game();
    logic.handle_mouse_move(Point::new(300_000, 50_000));
    // The paddle's center follows the cursor's height.
    assert_eq!(logic.left_pad.rect.top_left, Point::new(10_000, 25_000));

    // A cursor near the bottom edge leaves the paddle clamped inside.
    logic.handle_mouse_move(Point::new(300_000, 475_000));
    assert_eq!(logic.left_pad.rect.top_left, Point::new(10_000, 430_000));
}

#[test]
fn test_tick_moves_ball_deterministically() {
    let mut logic = standard_game();
    let before = logic.ball.rect.top_left;

    logic.handle_game_tick(20);  // one 1/50 s frame

    // The ball moved by a bounded, deterministic offset: 424 whole
    // sub-steps of (14, -14) and a final fractional one of (3, -3).
    let after = logic.ball.rect.top_left;
    assert_eq!(after, Point::new(320_939, 229_061));
    assert!((after.x - before.x).abs() <= 9_000);
    assert!((after.y - before.y).abs() <= 9_000);

    // Velocity magnitude is preserved; nothing was hit, nothing scored.
    assert_eq!(logic.ball.speed, Point::new(300_000, -300_000));
    assert_eq!(logic.left_score, 0);
    assert_eq!(logic.right_score, 0);
    assert_eq!(logic.speed_counter, 0);

    // The enemy paddle chased the ball's center upward.
    assert_eq!(logic.right_pad.rect.top_left, Point::new(620_000, 209_064));
    // The player's paddle does not move on its own.
    assert_eq!(logic.left_pad.rect.top_left, Point::new(10_000, 215_000));
}

#[test]
fn test_left_boundary_scores_right() {
    let mut logic = standard_game();
    // Put the ball just inside the left edge, below the left paddle,
    // heading straight out, mid-rally.
    logic.ball.rect.top_left = Point::new(5_000, 100_000);
    logic.ball.speed = Point::new(-300_000, 0);
    logic.speed_counter = 3;

    logic.handle_game_tick(20);

    // The crossing scores for the right side, exactly once, and the
    // round resets: ball back at the field center with the initial
    // velocity, speed counter cleared.
    assert_eq!(logic.right_score, 1);
    assert_eq!(logic.left_score, 0);
    assert_eq!(logic.speed_counter, 0);
    assert_eq!(logic.ball.rect.top_left, Point::new(315_000, 235_000));
    assert_eq!(logic.ball.speed, Point::new(300_000, -300_000));
}

#[test]
fn test_tick_is_deterministic() {
    let mut a = standard_game();
    let mut b = standard_game();
    for _ in 0..5 {
        a.handle_game_tick(20);
        b.handle_game_tick(20);
    }
    assert_eq!(a, b);
}
