use pong::game::{command_for_key, delta_millis, Command, IdleScreen, Key};
use pong::physics::{
    get_default_ball, handle_paddle_hit, isqrt, resolve_vertical_walls, scaled_speed, Ball,
    GameMode, MatchState, Paddle, PhysicsEngine, Side,
};
use pong::rand::Rng;

fn playing_engine() -> PhysicsEngine {
    let mut e = PhysicsEngine::new(800, 600, GameMode::TwoPaddle, Some(42));
    e.state = MatchState::Playing;
    e
}

#[test]
fn new_engine_layout() {
    let e = PhysicsEngine::new(800, 600, GameMode::TwoPaddle, Some(7));
    assert_eq!(e.state, MatchState::AwaitingServe);
    assert_eq!(e.left.score, 0);
    assert_eq!(e.right.score, 0);
    assert_eq!(e.left.x, 40_000);
    assert_eq!(e.right.x, 754_000);
    assert_eq!(e.left.y, 260_000);
    assert_eq!(e.right.y, 260_000);
    assert_eq!(e.ball.x, 397_000);
    assert_eq!(e.ball.y, 297_000);
    assert_eq!(e.ball.vy, 0);
    assert!(e.ball.vx == 300_000 || e.ball.vx == -300_000);
    assert_eq!(e.ball.size, 7);
}

#[test]
fn ball_stays_inside_surface_over_many_steps() {
    let mut e = playing_engine();
    for i in 0..2000u64 {
        if e.state != MatchState::Playing {
            break;
        }
        if i % 3 == 0 {
            e.move_paddle(Side::Left, 40_000);
            e.move_paddle(Side::Right, -40_000);
        }
        e.step(16);
        assert!(0 <= e.ball.y && e.ball.y <= (600 - 7) * 1000);
        assert!(0 <= e.ball.x && e.ball.x <= (800 - 7) * 1000);
        assert!(e.ball.vx.abs() <= 800_000);
        assert!(e.ball.vy.abs() <= 800_000);
    }
}

#[test]
fn wall_bounce_mode_keeps_ball_inside_horizontally() {
    let mut e = PhysicsEngine::new(800, 600, GameMode::WallBounce, Some(3));
    e.state = MatchState::Playing;
    for _ in 0..2000u64 {
        e.step(16);
        assert!(0 <= e.ball.x && e.ball.x <= (800 - 7) * 1000);
        assert_eq!(e.left.score, 0);
        assert_eq!(e.right.score, 0);
    }
}

#[test]
fn paddle_move_clamps_any_delta() {
    let mut e = playing_engine();
    e.move_paddle(Side::Left, 10_000_000);
    assert_eq!(e.left.y, (600 - 80) * 1000);
    e.move_paddle(Side::Left, 10_000_000);
    assert_eq!(e.left.y, (600 - 80) * 1000);
    e.move_paddle(Side::Right, -10_000_000);
    assert_eq!(e.right.y, 0);
    e.move_paddle(Side::Right, 0);
    assert_eq!(e.right.y, 0);
    e.move_paddle(Side::Right, 40_000);
    assert_eq!(e.right.y, 40_000);
}

#[test]
fn bottom_wall_hit_negates_vy_exactly() {
    let mut b = Ball { x: 100_000, y: 595_000, vx: 0, vy: 5, size: 7 };
    resolve_vertical_walls(&mut b, 600);
    assert_eq!(b.y, 593_000);
    assert_eq!(b.vy, -5);
}

#[test]
fn top_wall_hit_negates_vy_exactly() {
    let mut b = Ball { x: 100_000, y: -2_000, vx: 0, vy: -5, size: 7 };
    resolve_vertical_walls(&mut b, 600);
    assert_eq!(b.y, 0);
    assert_eq!(b.vy, 5);
}

#[test]
fn mid_air_ball_is_untouched_by_walls() {
    let mut b = Ball { x: 100_000, y: 300_000, vx: 11, vy: -22, size: 7 };
    let before = b;
    resolve_vertical_walls(&mut b, 600);
    assert_eq!(b, before);
}

#[test]
fn speed_scaling_grows_by_a_tenth_and_caps() {
    assert_eq!(scaled_speed(300_000), 330_000);
    assert_eq!(scaled_speed(330_000), 363_000);
    assert_eq!(scaled_speed(800_000), 800_000);
    assert_eq!(scaled_speed(0), 0);
    let mut s: i64 = 300_000;
    let mut prev: i64 = s;
    for _ in 0..100u32 {
        s = scaled_speed(s);
        assert!(s <= 800_000);
        assert!(s >= prev);
        prev = s;
    }
    assert_eq!(s, 800_000);
}

#[test]
fn isqrt_exact_values() {
    assert_eq!(isqrt(0), 0);
    assert_eq!(isqrt(1), 1);
    assert_eq!(isqrt(8), 2);
    assert_eq!(isqrt(9), 3);
    assert_eq!(isqrt(1_000_000), 1000);
    assert_eq!(isqrt(180_000_000_000), 424_264);
}

#[test]
fn center_hit_leaves_horizontally_at_full_speed() {
    let paddle = Paddle { x: 754_000, y: 260_000, width: 6, height: 80, score: 0 };
    let mut b = Ball { x: 750_000, y: 296_500, vx: 300_000, vy: 0, size: 7 };
    handle_paddle_hit(&mut b, &paddle, Side::Right, 800, 600);
    assert_eq!(b.x, 747_000);
    assert_eq!(b.vy, 0);
    assert_eq!(b.vx, -330_000);
}

#[test]
fn edge_hit_leaves_at_maximum_angle() {
    let paddle = Paddle { x: 754_000, y: 260_000, width: 6, height: 80, score: 0 };
    let mut b = Ball { x: 750_000, y: 336_500, vx: 300_000, vy: 0, size: 7 };
    handle_paddle_hit(&mut b, &paddle, Side::Right, 800, 600);
    assert_eq!(b.x, 747_000);
    assert_eq!(b.vx, -(330_000 * 2588 / 10_000));
    assert_eq!(b.vy, 330_000 * 9659 / 10_000);
}

#[test]
fn left_paddle_hit_sends_ball_right() {
    let paddle = Paddle { x: 40_000, y: 260_000, width: 6, height: 80, score: 0 };
    let mut b = Ball { x: 44_000, y: 296_500, vx: -300_000, vy: 0, size: 7 };
    handle_paddle_hit(&mut b, &paddle, Side::Left, 800, 600);
    assert_eq!(b.x, 46_000);
    assert_eq!(b.vx, 330_000);
    assert_eq!(b.vy, 0);
}

#[test]
fn missed_ball_is_untouched_by_paddle() {
    let paddle = Paddle { x: 754_000, y: 260_000, width: 6, height: 80, score: 0 };
    let mut b = Ball { x: 400_000, y: 296_500, vx: 300_000, vy: 0, size: 7 };
    let before = b;
    handle_paddle_hit(&mut b, &paddle, Side::Right, 800, 600);
    assert_eq!(b, before);
}

#[test]
fn goal_at_right_wall_scores_for_left_and_resets_ball() {
    let mut e = playing_engine();
    e.ball = Ball { x: 793_000, y: 300_000, vx: 300_000, vy: 0, size: 7 };
    e.step(0);
    assert_eq!(e.left.score, 1);
    assert_eq!(e.right.score, 0);
    assert_eq!(e.ball.x, 397_000);
    assert_eq!(e.ball.y, e.right.y + 37_000);
    assert_eq!(e.ball.vx, 300_000);
    assert!(-300_000 <= e.ball.vy && e.ball.vy < 300_000);
    assert_eq!(e.state, MatchState::Playing);
}

#[test]
fn goal_at_left_wall_scores_for_right() {
    let mut e = playing_engine();
    e.ball = Ball { x: 0, y: 300_000, vx: -300_000, vy: 0, size: 7 };
    e.step(0);
    assert_eq!(e.right.score, 1);
    assert_eq!(e.left.score, 0);
    assert_eq!(e.ball.x, 397_000);
    assert_eq!(e.ball.y, e.left.y + 37_000);
    assert_eq!(e.ball.vx, -300_000);
}

#[test]
fn eleventh_point_finishes_the_match_but_tenth_does_not() {
    let mut e = playing_engine();
    e.left.score = 9;
    e.ball = Ball { x: 793_000, y: 300_000, vx: 300_000, vy: 0, size: 7 };
    e.step(0);
    assert_eq!(e.left.score, 10);
    assert_eq!(e.state, MatchState::Playing);
    e.ball = Ball { x: 793_000, y: 300_000, vx: 300_000, vy: 0, size: 7 };
    e.step(0);
    assert_eq!(e.left.score, 11);
    assert_eq!(e.state, MatchState::Finished);
}

#[test]
fn step_outside_play_changes_nothing() {
    let mut e = PhysicsEngine::new(800, 600, GameMode::TwoPaddle, Some(9));
    let before = e;
    e.step(16);
    assert_eq!(e, before);
}

#[test]
fn same_seed_gives_identical_sequences() {
    let mut a = Rng::new(Some(123_456_789));
    let mut b = Rng::new(Some(123_456_789));
    for _ in 0..10u32 {
        assert_eq!(a.random_float(), b.random_float());
    }
    let mut c = Rng::new(None);
    let mut d = Rng::new(None);
    assert_eq!(c.state, 12_345_678_901_234_567);
    assert_eq!(c.random_float(), d.random_float());
}

#[test]
fn random_range_stays_in_half_open_range() {
    let mut r = Rng::new(Some(1));
    for _ in 0..10_000u32 {
        let v = r.random_range(-300_000, 300_000);
        assert!(-300_000 <= v && v < 300_000);
    }
    let mut r2 = Rng::new(Some(77));
    assert_eq!(r2.random_range(5, 5), 5);
}

#[test]
fn random_bool_extremes() {
    let mut r = Rng::new(Some(2));
    for _ in 0..100u32 {
        assert!(!r.random_bool(0));
        assert!(r.random_bool(1_000_000));
    }
}

#[test]
fn serve_key_starts_play_and_clears_scores() {
    let mut e = PhysicsEngine::new(800, 600, GameMode::TwoPaddle, Some(11));
    let quit = e.handle_key(Key::Printable(' '));
    assert!(!quit);
    assert_eq!(e.state, MatchState::Playing);
    assert_eq!(e.left.score, 0);
    assert_eq!(e.right.score, 0);
    assert_eq!(e.ball.x, 397_000);
}

#[test]
fn serve_after_finish_resets_scores() {
    let mut e = playing_engine();
    e.left.score = 10;
    e.ball = Ball { x: 793_000, y: 300_000, vx: 300_000, vy: 0, size: 7 };
    e.step(0);
    assert_eq!(e.state, MatchState::Finished);
    let quit = e.handle_key(Key::Printable(' '));
    assert!(!quit);
    assert_eq!(e.state, MatchState::Playing);
    assert_eq!(e.left.score, 0);
}

#[test]
fn quit_key_quits_in_any_state() {
    let mut e = PhysicsEngine::new(800, 600, GameMode::TwoPaddle, Some(4));
    assert!(e.handle_key(Key::Printable('q')));
    assert!(e.handle_key(Key::Printable('Q')));
    e.state = MatchState::Playing;
    assert!(e.handle_key(Key::Printable('q')));
}

#[test]
fn move_keys_only_work_in_play() {
    let mut e = PhysicsEngine::new(800, 600, GameMode::TwoPaddle, Some(4));
    let before = e;
    assert!(!e.handle_key(Key::Printable('w')));
    assert!(!e.handle_key(Key::Up));
    assert_eq!(e, before);
    e.state = MatchState::Playing;
    assert!(!e.handle_key(Key::Printable('w')));
    assert_eq!(e.left.y, 220_000);
    assert!(!e.handle_key(Key::Printable('s')));
    assert_eq!(e.left.y, 260_000);
    assert!(!e.handle_key(Key::Up));
    assert_eq!(e.right.y, 220_000);
    assert!(!e.handle_key(Key::Down));
    assert_eq!(e.right.y, 260_000);
}

#[test]
fn idle_message_names_the_winner_and_margin() {
    let mut e = PhysicsEngine::new(800, 600, GameMode::TwoPaddle, Some(4));
    assert_eq!(e.idle_message(), IdleScreen::PressStart);
    e.state = MatchState::Finished;
    e.left.score = 11;
    e.right.score = 5;
    assert_eq!(e.idle_message(), IdleScreen::LeftWon { margin: 6 });
    e.left.score = 3;
    e.right.score = 11;
    assert_eq!(e.idle_message(), IdleScreen::RightWon { margin: 8 });
}

#[test]
fn delta_is_scaled_and_clamped() {
    assert_eq!(delta_millis(50, 1000), 50);
    assert_eq!(delta_millis(500, 1000), 100);
    assert_eq!(delta_millis(0, 5), 0);
    assert_eq!(delta_millis(10_000, 1_000_000), 10);
    assert_eq!(delta_millis(u64::MAX, 1), 100);
}

#[test]
fn default_ball_is_deterministic_in_the_seed() {
    let mut r1 = Rng::new(Some(5));
    let mut r2 = Rng::new(Some(5));
    let b1 = get_default_ball(800, 600, &mut r1);
    let b2 = get_default_ball(800, 600, &mut r2);
    assert_eq!(b1, b2);
    assert_eq!(r1.state, r2.state);
}

#[test]
fn command_mapping_is_case_insensitive() {
    assert_eq!(
        command_for_key(MatchState::Playing, Key::Printable('W')),
        Some(Command::LeftUp)
    );
    assert_eq!(
        command_for_key(MatchState::Playing, Key::Printable('S')),
        Some(Command::LeftDown)
    );
    assert_eq!(command_for_key(MatchState::Playing, Key::Printable(' ')), None);
    assert_eq!(
        command_for_key(MatchState::AwaitingServe, Key::Printable(' ')),
        Some(Command::Serve)
    );
    assert_eq!(command_for_key(MatchState::AwaitingServe, Key::Up), None);
}

#[test]
fn rally_accelerates_until_the_cap() {
    let paddle = Paddle { x: 754_000, y: 260_000, width: 6, height: 80, score: 0 };
    let mut speed: i64 = 300_000;
    for _ in 0..30u32 {
        let mut b = Ball { x: 750_000, y: 296_500, vx: speed, vy: 0, size: 7 };
        handle_paddle_hit(&mut b, &paddle, Side::Right, 800, 600);
        let new_speed = -b.vx;
        assert!(new_speed >= speed.min(800_000));
        assert!(new_speed <= 800_000);
        let mag2 = b.vx as i128 * b.vx as i128 + b.vy as i128 * b.vy as i128;
        assert!(mag2 <= 800_000i128 * 800_000);
        assert!(mag2 >= 300_000i128 * 300_000);
        speed = new_speed;
    }
    assert_eq!(speed, 800_000);
}

#[test]
fn integration_is_scaled_by_the_time_delta() {
    let mut e = playing_engine();
    e.ball = Ball { x: 400_000, y: 300_000, vx: -300_000, vy: 250_000, size: 7 };
    e.step(16);
    assert_eq!(e.ball.x, 400_000 - 300_000 * 16 / 1000);
    assert_eq!(e.ball.y, 300_000 + 250_000 * 16 / 1000);
    assert_eq!(e.ball.vx, -300_000);
    assert_eq!(e.ball.vy, 250_000);
}

#[test]
fn zero_delta_moves_nothing_in_open_play() {
    let mut e = playing_engine();
    e.ball = Ball { x: 400_000, y: 300_000, vx: 300_000, vy: -100_000, size: 7 };
    let before = e;
    e.step(0);
    assert_eq!(e, before);
}

#[test]
fn largest_accepted_delta_travels_one_step_bound() {
    let mut e = playing_engine();
    e.ball = Ball { x: 400_000, y: 300_000, vx: 300_000, vy: 0, size: 7 };
    e.step(100);
    assert_eq!(e.ball.x, 400_000 + 30_000);
}
