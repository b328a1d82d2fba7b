use vstd::prelude::*;

use crate::misc::{overlapping, rectangles_overlapping, Rectangle};
use crate::rand::{bool_outcome, lcg_next, range_outcome, seed_or_fallback, Rng};

verus! {

/// Fixed-point scale: positions and velocities are stored in thousandths
/// of a pixel, so the simulation keeps sub-pixel precision in plain
/// integer arithmetic.
pub const SUBPIXEL: i64 = 1000;

/// Velocities are in units per second; time deltas arrive in milliseconds.
pub const MILLIS_PER_SECOND: i64 = 1000;

/// Side length of the square ball, in pixels.
pub const BALL_SIZE: i64 = 7;

/// Horizontal serve speed, in units per second (300 pixels per second).
pub const BALL_START_SPEED: i64 = 300_000;

/// Cap on the ball speed magnitude, in units per second.
pub const MAX_BALL_SPEED: i64 = 800_000;

/// Paddle dimensions, in pixels.
pub const PADDLE_HEIGHT: i64 = 80;

/// Paddle width, in pixels.
pub const PADDLE_WIDTH: i64 = 6;

/// How far one move command shifts a paddle, in units (40 pixels).
pub const PADDLE_SPEED: i64 = 40_000;

/// Gap between each paddle and its own wall, in pixels.
pub const PADDLE_DISTANCE_WALL: i64 = 40;

/// Time deltas are clamped to this bound, so that a stall (for example
/// under a debugger) cannot make the ball tunnel through both walls in
/// one step.
pub const MAX_DELTA_MS: i64 = 100;

/// How far the ball can travel in one clamped step, in units:
/// `MAX_BALL_SPEED * MAX_DELTA_MS / MILLIS_PER_SECOND`.
pub const MAX_STEP_TRAVEL: i64 = 80_000;

/// First score that ends the match.
pub const WINNING_SCORE: u64 = 11;

/// Accepted surface sizes, in pixels: wide enough that a freshly served
/// ball stands clear of both paddles, tall enough to hold a paddle.
pub const MIN_SURFACE_WIDTH: i64 = 200;

/// Minimum accepted surface height, in pixels.
pub const MIN_SURFACE_HEIGHT: i64 = 80;

/// Maximum accepted surface width or height, in pixels.
pub const MAX_SURFACE_DIM: i64 = 16384;

/// Which paddle: the one by the left wall or the one by the right wall.
#[derive(Clone, Copy, PartialEq, Eq, Structural, Debug)]
pub enum Side {
    Left,
    Right,
}

/// Edge policy of a match: score-and-reset at the side walls, or plain
/// reflection (single-player practice). A match uses exactly one.
#[derive(Clone, Copy, PartialEq, Eq, Structural, Debug)]
pub enum GameMode {
    TwoPaddle,
    WallBounce,
}

/// Phase of a match: waiting for the first serve, in play, or ended by
/// a score reaching the winning threshold.
#[derive(Clone, Copy, PartialEq, Eq, Structural, Debug)]
pub enum MatchState {
    AwaitingServe,
    Playing,
    Finished,
}

/// The ball: position of its top-left corner and velocity, in units;
/// side length in pixels.
#[derive(Clone, Copy, PartialEq, Eq, Structural, Debug)]
pub struct Ball {
    pub x: i64,
    pub y: i64,
    pub vx: i64,
    pub vy: i64,
    pub size: i64,
}

/// A paddle: fixed x, movable y (both in units), fixed dimensions in
/// pixels, and its score.
#[derive(Clone, Copy, PartialEq, Eq, Structural, Debug)]
pub struct Paddle {
    pub x: i64,
    pub y: i64,
    pub width: i64,
    pub height: i64,
    pub score: u64,
}

/// Surface sizes the simulation accepts.
pub open spec fn dims_valid(width: i64, height: i64) -> bool {
    &&& MIN_SURFACE_WIDTH <= width <= MAX_SURFACE_DIM
    &&& MIN_SURFACE_HEIGHT <= height <= MAX_SURFACE_DIM
}

/// `v` forced into `[lo, hi]`.
pub open spec fn clamped(v: int, lo: int, hi: int) -> int {
    if v < lo {
        lo
    } else if v > hi {
        hi
    } else {
        v
    }
}

/// Clamping an already clamped value changes nothing.
pub proof fn lemma_clamp_idempotent(v: int, lo: int, hi: int)
    requires
        lo <= hi,
    ensures
        clamped(clamped(v, lo, hi), lo, hi) == clamped(v, lo, hi),
{
}

impl Ball {
    /// Both velocity components within the speed cap.
    pub open spec fn speed_ok(self) -> bool {
        &&& -MAX_BALL_SPEED <= self.vx <= MAX_BALL_SPEED
        &&& -MAX_BALL_SPEED <= self.vy <= MAX_BALL_SPEED
    }

    /// The rally floor: the squared magnitude of the velocity never
    /// falls below the squared serve speed. Serves and score resets
    /// start exactly at the serve speed, wall reflections keep the
    /// magnitude, and a paddle hit scales the speed up by more than the
    /// sliver the rounded-down direction tables can take away.
    pub open spec fn rally_speed_ok(self) -> bool {
        BALL_START_SPEED * BALL_START_SPEED <= self.vx * self.vx + self.vy * self.vy
    }

    /// Horizontal position within the surface.
    pub open spec fn in_x_range(self, width: i64) -> bool {
        0 <= self.x <= (width - self.size) * SUBPIXEL
    }

    /// Vertical position within the surface.
    pub open spec fn in_y_range(self, height: i64) -> bool {
        0 <= self.y <= (height - self.size) * SUBPIXEL
    }

    /// Horizontal position at most one clamped step of travel outside
    /// the surface: the transient state between integration and
    /// collision resolution.
    pub open spec fn near_x_range(self, width: i64) -> bool {
        -MAX_STEP_TRAVEL <= self.x <= (width - self.size) * SUBPIXEL + MAX_STEP_TRAVEL
    }

    /// Vertical counterpart of `near_x_range`.
    pub open spec fn near_y_range(self, height: i64) -> bool {
        -MAX_STEP_TRAVEL <= self.y <= (height - self.size) * SUBPIXEL + MAX_STEP_TRAVEL
    }

    /// A well-formed ball on a surface of the given size.
    pub open spec fn wf(self, width: i64, height: i64) -> bool {
        &&& self.size == BALL_SIZE
        &&& self.speed_ok()
        &&& self.in_x_range(width)
        &&& self.in_y_range(height)
    }
}

/// The fixed x position of a paddle, in units.
pub open spec fn paddle_x(width: i64, side: Side) -> int {
    match side {
        Side::Left => PADDLE_DISTANCE_WALL * SUBPIXEL,
        Side::Right => (width - PADDLE_WIDTH - PADDLE_DISTANCE_WALL) * SUBPIXEL,
    }
}

/// The vertical position of a paddle centered on the surface, in units.
pub open spec fn centered_paddle_y(height: i64) -> int {
    (height / 2 - PADDLE_HEIGHT / 2) * SUBPIXEL
}

impl Paddle {
    /// Largest admissible y, in units: the paddle flush with the bottom.
    pub open spec fn y_max(self, height: i64) -> int {
        (height - self.height) * SUBPIXEL
    }

    /// A well-formed paddle for its side of a surface of the given size.
    pub open spec fn wf(self, width: i64, height: i64, side: Side) -> bool {
        &&& self.width == PADDLE_WIDTH
        &&& self.height == PADDLE_HEIGHT
        &&& self.x == paddle_x(width, side)
        &&& 0 <= self.y <= self.y_max(height)
        &&& self.score <= WINNING_SCORE
    }
}

/// The ball a match starts or restarts with: centered, still vertically,
/// served horizontally toward a side drawn from the generator in state
/// `s` (a fair coin).
pub open spec fn default_ball(width: i64, height: i64, s: u64) -> Ball {
    Ball {
        x: ((width / 2 - BALL_SIZE / 2) * SUBPIXEL) as i64,
        y: ((height / 2 - BALL_SIZE / 2) * SUBPIXEL) as i64,
        vx: if bool_outcome(s, 500_000) {
            BALL_START_SPEED as i64
        } else {
            (-BALL_START_SPEED) as i64
        },
        vy: 0,
        size: BALL_SIZE,
    }
}

/// Builds the serve ball, drawing the serve direction from `rng`.
pub fn get_default_ball(width: i64, height: i64, rng: &mut Rng) -> (b: Ball)
    requires
        dims_valid(width, height),
    ensures
        b == default_ball(width, height, old(rng).state),
        final(rng).state == lcg_next(old(rng).state),
        b.wf(width, height),
        b.rally_speed_ok(),
{
    proof {
        assert((-BALL_START_SPEED) * (-BALL_START_SPEED) == BALL_START_SPEED * BALL_START_SPEED)
            by (nonlinear_arith);
    }
    let toward_right = rng.random_bool(500_000);
    Ball {
        x: (width / 2 - BALL_SIZE / 2) * SUBPIXEL,
        y: (height / 2 - BALL_SIZE / 2) * SUBPIXEL,
        vx: if toward_right {
            BALL_START_SPEED
        } else {
            -BALL_START_SPEED
        },
        vy: 0,
        size: BALL_SIZE,
    }
}

/// The whole simulation state of one match.
#[derive(Clone, Copy, PartialEq, Eq, Structural, Debug)]
pub struct PhysicsEngine {
    pub width: i64,
    pub height: i64,
    pub mode: GameMode,
    pub ball: Ball,
    pub left: Paddle,
    pub right: Paddle,
    pub state: MatchState,
    pub rng: Rng,
}

impl PhysicsEngine {
    /// The paddle of the named side.
    pub open spec fn paddle(self, side: Side) -> Paddle {
        match side {
            Side::Left => self.left,
            Side::Right => self.right,
        }
    }

    /// Invariant of the simulation: valid surface, well-formed ball and
    /// paddles, the rally never slower than the serve speed, and scores
    /// consistent with the match phase (a match in play has no winner
    /// yet; one awaiting its first serve is 0 : 0).
    pub open spec fn wf(self) -> bool {
        &&& dims_valid(self.width, self.height)
        &&& self.ball.wf(self.width, self.height)
        &&& self.ball.rally_speed_ok()
        &&& self.left.wf(self.width, self.height, Side::Left)
        &&& self.right.wf(self.width, self.height, Side::Right)
        &&& self.state == MatchState::Playing ==> {
            self.left.score < WINNING_SCORE && self.right.score < WINNING_SCORE
        }
        &&& self.state == MatchState::AwaitingServe ==> {
            self.left.score == 0 && self.right.score == 0
        }
    }

    /// Sets up a match on a surface of the given size: paddles centered
    /// with empty scores, serve ball ready, awaiting the first serve.
    pub fn new(width: i64, height: i64, mode: GameMode, seed: Option<u64>) -> (r: PhysicsEngine)
        requires
            dims_valid(width, height),
        ensures
            r.wf(),
            r.width == width,
            r.height == height,
            r.mode == mode,
            r.state == MatchState::AwaitingServe,
            r.left.score == 0,
            r.right.score == 0,
            r.left.y == centered_paddle_y(height),
            r.right.y == centered_paddle_y(height),
            r.ball == default_ball(width, height, seed_or_fallback(seed)),
            r.rng.state == lcg_next(seed_or_fallback(seed)),
    {
        let mut rng = Rng::new(seed);
        let ball = get_default_ball(width, height, &mut rng);
        PhysicsEngine {
            width,
            height,
            mode,
            ball,
            left: Paddle {
                x: PADDLE_DISTANCE_WALL * SUBPIXEL,
                y: (height / 2 - PADDLE_HEIGHT / 2) * SUBPIXEL,
                width: PADDLE_WIDTH,
                height: PADDLE_HEIGHT,
                score: 0,
            },
            right: Paddle {
                x: (width - PADDLE_WIDTH - PADDLE_DISTANCE_WALL) * SUBPIXEL,
                y: (height / 2 - PADDLE_HEIGHT / 2) * SUBPIXEL,
                width: PADDLE_WIDTH,
                height: PADDLE_HEIGHT,
                score: 0,
            },
            state: MatchState::AwaitingServe,
            rng,
        }
    }

    /// Shifts the named paddle by `delta` units and clamps the result
    /// onto the surface. Any delta is accepted; the clamp guarantees
    /// the paddle invariant whatever was asked.
    pub fn move_paddle(&mut self, side: Side, delta: i64)
        requires
            old(self).wf(),
        ensures
            final(self).wf(),
            final(self).paddle(side).y == clamped(
                old(self).paddle(side).y + delta,
                0,
                old(self).paddle(side).y_max(old(self).height),
            ),
            0 <= final(self).paddle(side).y <= final(self).paddle(side).y_max(final(self).height),
            side == Side::Left ==> *final(self) == (PhysicsEngine {
                left: (Paddle { y: final(self).left.y, ..old(self).left }),
                ..*old(self)
            }),
            side == Side::Right ==> *final(self) == (PhysicsEngine {
                right: (Paddle { y: final(self).right.y, ..old(self).right }),
                ..*old(self)
            }),
    {
        let hi = (self.height - PADDLE_HEIGHT) * SUBPIXEL;
        match side {
            Side::Left => {
                self.left.y = clamp_shift(self.left.y, delta, hi);
            },
            Side::Right => {
                self.right.y = clamp_shift(self.right.y, delta, hi);
            },
        }
    }
}

/// The integer square root, by the classic recursion on `n / 4`:
/// doubling the root of the quotient lands within one of the root.
pub open spec fn isqrt_spec(n: nat) -> nat
    decreases n,
{
    if n == 0 {
        0
    } else {
        let r = 2 * isqrt_spec(n / 4);
        if (r + 1) * (r + 1) <= n {
            r + 1
        } else {
            r
        }
    }
}

/// `isqrt_spec` really is the rounded-down square root.
pub proof fn lemma_isqrt_spec_bounds(n: nat)
    ensures
        isqrt_spec(n) * isqrt_spec(n) <= n,
        n < (isqrt_spec(n) + 1) * (isqrt_spec(n) + 1),
    decreases n,
{
    if n > 0 {
        let q = n / 4;
        lemma_isqrt_spec_bounds(q);
        let h = isqrt_spec(q);
        let r = 2 * h;
        assert(n == 4 * q + n % 4 && n % 4 < 4) by {
            vstd::arithmetic::div_mod::lemma_fundamental_div_mod(n as int, 4);
            vstd::arithmetic::div_mod::lemma_mod_division_less_than_divisor(n as int, 4);
        }
        assert(r * r == 4 * (h * h)) by (nonlinear_arith)
            requires
                r == 2 * h,
        ;
        assert((r + 2) * (r + 2) == 4 * ((h + 1) * (h + 1))) by (nonlinear_arith)
            requires
                r == 2 * h,
        ;
        assert(r * r <= 4 * q);
        assert(4 * q + 4 <= (r + 2) * (r + 2));
        assert(n < (r + 2) * (r + 2));
        if (r + 1) * (r + 1) <= n {
            assert(isqrt_spec(n) == r + 1);
            assert(isqrt_spec(n) * isqrt_spec(n) <= n);
            assert(n < (isqrt_spec(n) + 1) * (isqrt_spec(n) + 1));
        } else {
            assert(isqrt_spec(n) == r);
            assert(isqrt_spec(n) * isqrt_spec(n) <= n);
            assert(n < (isqrt_spec(n) + 1) * (isqrt_spec(n) + 1));
        }
    } else {
        let s = isqrt_spec(n);
        assert(s == 0);
        assert((s + 1) * (s + 1) == 1) by (nonlinear_arith)
            requires
                s == 0,
        ;
        assert(n < (isqrt_spec(n) + 1) * (isqrt_spec(n) + 1));
    }
}

/// Computes the rounded-down square root.
pub fn isqrt(n: u64) -> (r: u64)
    ensures
        r == isqrt_spec(n as nat),
        r * r <= n < (r + 1) * (r + 1),
    decreases n,
{
    proof {
        lemma_isqrt_spec_bounds(n as nat);
    }
    if n == 0 {
        0
    } else {
        let h = isqrt(n / 4);
        proof {
            lemma_isqrt_spec_bounds((n / 4) as nat);
            assert(h < 0x1_0000_0000) by {
                if h >= 0x1_0000_0000 {
                    assert(h * h >= 0x1_0000_0000 * 0x1_0000_0000) by (nonlinear_arith)
                        requires
                            h >= 0x1_0000_0000,
                    ;
                }
            }
        }
        let c = 2 * h + 1;
        proof {
            assert((c as int) * (c as int) <= 0x2_0000_0001 * 0x2_0000_0001) by (nonlinear_arith)
                requires
                    0 <= c <= 0x2_0000_0001,
            ;
        }
        if (c as u128) * (c as u128) <= n as u128 {
            c
        } else {
            c - 1
        }
    }
}

/// The speed magnitude of a velocity, in units per second.
pub open spec fn speed_of(vx: i64, vy: i64) -> int {
    isqrt_spec((vx * vx + vy * vy) as nat) as int
}

/// Computes the speed magnitude of a velocity.
pub fn ball_speed(vx: i64, vy: i64) -> (s: i64)
    requires
        -MAX_BALL_SPEED <= vx <= MAX_BALL_SPEED,
        -MAX_BALL_SPEED <= vy <= MAX_BALL_SPEED,
    ensures
        s == speed_of(vx, vy),
        s * s <= vx * vx + vy * vy < (s + 1) * (s + 1),
        0 <= s <= 2_000_000,
    {
    proof {
        assert(vx * vx <= MAX_BALL_SPEED * MAX_BALL_SPEED) by (nonlinear_arith)
            requires
                -MAX_BALL_SPEED <= vx <= MAX_BALL_SPEED,
        ;
        assert(vy * vy <= MAX_BALL_SPEED * MAX_BALL_SPEED) by (nonlinear_arith)
            requires
                -MAX_BALL_SPEED <= vy <= MAX_BALL_SPEED,
        ;
        assert(vx * vx >= 0) by (nonlinear_arith);
        assert(vy * vy >= 0) by (nonlinear_arith);
    }
    let sq: u64 = ((vx * vx) + (vy * vy)) as u64;
    let s = isqrt(sq);
    proof {
        assert(s <= 2_000_000) by {
            if s > 2_000_000 {
                assert(s * s > 2_000_000 * 2_000_000) by (nonlinear_arith)
                    requires
                        s > 2_000_000usize as u64,
                ;
            }
        }
    }
    s as i64
}

/// The speed after one paddle hit: grown by a tenth, capped.
pub open spec fn speed_after_hit(s: int) -> int {
    if s * 11 / 10 > MAX_BALL_SPEED {
        MAX_BALL_SPEED as int
    } else {
        s * 11 / 10
    }
}

/// Applies the rally acceleration to a speed magnitude.
pub fn scaled_speed(s: i64) -> (r: i64)
    requires
        0 <= s <= 2_000_000,
    ensures
        r == speed_after_hit(s as int),
        0 <= r <= MAX_BALL_SPEED,
        s <= MAX_BALL_SPEED ==> s <= r,
{
    proof {
        vstd::arithmetic::div_mod::lemma_div_is_ordered(10 * s, 11 * s, 10);
        vstd::arithmetic::div_mod::lemma_div_multiples_vanish(s as int, 10);
        vstd::arithmetic::div_mod::lemma_div_pos_is_pos(11 * s, 10);
    }
    let grown = s * 11 / 10;
    if grown > MAX_BALL_SPEED {
        MAX_BALL_SPEED
    } else {
        grown
    }
}

/// The speed magnitude after `n` consecutive paddle hits.
pub open spec fn speed_after_hits(s: int, n: nat) -> int
    decreases n,
{
    if n == 0 {
        s
    } else {
        speed_after_hit(speed_after_hits(s, (n - 1) as nat))
    }
}

/// Rally acceleration is monotone and capped: however many consecutive
/// hits a rally has seen, the speed never shrinks from one hit to the
/// next and never exceeds `MAX_BALL_SPEED`.
pub proof fn lemma_speed_scaling_monotone_capped(s: int, n: nat)
    requires
        0 <= s <= MAX_BALL_SPEED,
    ensures
        0 <= speed_after_hits(s, n) <= MAX_BALL_SPEED,
        speed_after_hits(s, n) <= speed_after_hits(s, n + 1),
    decreases n,
{
    if n == 0 {
        lemma_speed_after_hit_grows(s);
    } else {
        lemma_speed_scaling_monotone_capped(s, (n - 1) as nat);
        lemma_speed_after_hit_grows(speed_after_hits(s, n));
    }
}

/// One hit never shrinks a speed below the cap, and never exceeds it.
pub proof fn lemma_speed_after_hit_grows(s: int)
    requires
        0 <= s <= MAX_BALL_SPEED,
    ensures
        s <= speed_after_hit(s) <= MAX_BALL_SPEED,
{
    vstd::arithmetic::div_mod::lemma_div_is_ordered(10 * s, 11 * s, 10);
    vstd::arithmetic::div_mod::lemma_div_multiples_vanish(s, 10);
}

/// Scaling is monotone in the incoming speed: a faster rally stays at
/// least as fast after the next hit.
pub proof fn lemma_speed_after_hit_monotone(s1: int, s2: int)
    requires
        0 <= s1 <= s2,
    ensures
        speed_after_hit(s1) <= speed_after_hit(s2),
{
    vstd::arithmetic::div_mod::lemma_div_is_ordered(11 * s1, 11 * s2, 10);
}

/// Quantization of the hit offset: the paddle half-height is divided
/// into this many steps, each mapped to one entry of the angle tables.
pub const ANGLE_STEPS: i64 = 16;

/// Scale of the direction tables: table entries are cosine and sine
/// values times this constant.
pub const TRIG_SCALE: i64 = 10000;

/// Cosine of the bounce angle at offset step `k` out of 16, scaled by
/// `TRIG_SCALE`. Step 16 is the maximum bounce angle of 75 degrees, so
/// entry `k` is `cos(75deg * k / 16) * 10000`, rounded down. Rounding
/// both tables down keeps every pair's squared norm within the squared
/// scale, so a bounce can never lengthen the velocity it emits.
pub open spec fn bounce_cos(k: int) -> int {
    if k <= 0 {
        10000
    } else if k == 1 {
        9966
    } else if k == 2 {
        9866
    } else if k == 3 {
        9700
    } else if k == 4 {
        9469
    } else if k == 5 {
        9174
    } else if k == 6 {
        8819
    } else if k == 7 {
        8404
    } else if k == 8 {
        7933
    } else if k == 9 {
        7409
    } else if k == 10 {
        6835
    } else if k == 11 {
        6216
    } else if k == 12 {
        5555
    } else if k == 13 {
        4857
    } else if k == 14 {
        4127
    } else if k == 15 {
        3368
    } else {
        2588
    }
}

/// Sine of the bounce angle at offset step `k`, scaled by `TRIG_SCALE`:
/// `sin(75deg * k / 16) * 10000`, rounded down.
pub open spec fn bounce_sin(k: int) -> int {
    if k <= 0 {
        0
    } else if k == 1 {
        817
    } else if k == 2 {
        1628
    } else if k == 3 {
        2429
    } else if k == 4 {
        3214
    } else if k == 5 {
        3977
    } else if k == 6 {
        4713
    } else if k == 7 {
        5418
    } else if k == 8 {
        6087
    } else if k == 9 {
        6715
    } else if k == 10 {
        7298
    } else if k == 11 {
        7832
    } else if k == 12 {
        8314
    } else if k == 13 {
        8740
    } else if k == 14 {
        9108
    } else if k == 15 {
        9415
    } else {
        9659
    }
}

/// Every table entry lies within the scale, and the cosine never
/// vanishes: the ball always leaves a paddle with some horizontal speed.
pub proof fn lemma_trig_bounds(k: int)
    requires
        0 <= k <= ANGLE_STEPS,
    ensures
        0 < bounce_cos(k) <= TRIG_SCALE,
        0 <= bounce_sin(k) <= TRIG_SCALE,
{
}

/// Every direction pair's squared norm stays within the squared scale
/// (the tables are rounded down) and close beneath it: a bounce never
/// lengthens the velocity it emits, and shortens it by well under a
/// tenth of a percent.
pub proof fn lemma_table_norm(k: int)
    requires
        0 <= k <= ANGLE_STEPS,
    ensures
        bounce_cos(k) * bounce_cos(k) + bounce_sin(k) * bounce_sin(k) <= 100_000_000,
        bounce_cos(k) * bounce_cos(k) + bounce_sin(k) * bounce_sin(k) >= 99_900_000,
{
}

/// The velocity a paddle hit emits, componentwise `s1 * table / scale`:
/// its squared magnitude never exceeds the squared scalar rally speed
/// `s1`, and once the rally speed has reached the post-hit floor of
/// `330_000`, the squared magnitude stays at or above the squared serve
/// speed and the horizontal component stays at or above `33` times the
/// table cosine (in particular, nonzero).
pub proof fn lemma_emitted_magnitude(s1: int, k: int)
    requires
        0 <= s1 <= MAX_BALL_SPEED,
        0 <= k <= ANGLE_STEPS,
    ensures
        ({
            let a = s1 * bounce_cos(k) / (TRIG_SCALE as int);
            let b = s1 * bounce_sin(k) / (TRIG_SCALE as int);
            &&& a * a + b * b <= s1 * s1
            &&& s1 >= 330_000 ==> a * a + b * b >= BALL_START_SPEED * BALL_START_SPEED
            &&& s1 >= 330_000 ==> a >= 33 * bounce_cos(k)
            &&& s1 >= 330_000 ==> b >= 33 * bounce_sin(k)
        }),
{
    lemma_table_norm(k);
    lemma_trig_bounds(k);
    let c = bounce_cos(k);
    let sn = bounce_sin(k);
    let a = s1 * c / (TRIG_SCALE as int);
    let b = s1 * sn / (TRIG_SCALE as int);
    vstd::arithmetic::mul::lemma_mul_nonnegative(s1, c);
    vstd::arithmetic::mul::lemma_mul_nonnegative(s1, sn);
    vstd::arithmetic::mul::lemma_mul_nonnegative(s1, s1);
    vstd::arithmetic::div_mod::lemma_div_pos_is_pos(s1 * c, 10000);
    vstd::arithmetic::div_mod::lemma_div_pos_is_pos(s1 * sn, 10000);
    vstd::arithmetic::div_mod::lemma_fundamental_div_mod(s1 * c, 10000);
    vstd::arithmetic::div_mod::lemma_fundamental_div_mod(s1 * sn, 10000);
    vstd::arithmetic::div_mod::lemma_mod_division_less_than_divisor(s1 * c, 10000);
    vstd::arithmetic::div_mod::lemma_mod_division_less_than_divisor(s1 * sn, 10000);
    assert(10000 * a <= s1 * c);
    assert(10000 * b <= s1 * sn);
    assert((10000 * a) * (10000 * a) <= (s1 * c) * (s1 * c)) by (nonlinear_arith)
        requires
            0 <= 10000 * a <= s1 * c,
    ;
    assert((10000 * b) * (10000 * b) <= (s1 * sn) * (s1 * sn)) by (nonlinear_arith)
        requires
            0 <= 10000 * b <= s1 * sn,
    ;
    assert((10000 * a) * (10000 * a) == 100_000_000 * (a * a)) by (nonlinear_arith);
    assert((10000 * b) * (10000 * b) == 100_000_000 * (b * b)) by (nonlinear_arith);
    assert((s1 * c) * (s1 * c) == (s1 * s1) * (c * c)) by (nonlinear_arith);
    assert((s1 * sn) * (s1 * sn) == (s1 * s1) * (sn * sn)) by (nonlinear_arith);
    assert((s1 * s1) * (c * c) + (s1 * s1) * (sn * sn) == (s1 * s1) * (c * c + sn * sn)) by (
    nonlinear_arith);
    assert((s1 * s1) * (c * c + sn * sn) <= (s1 * s1) * 100_000_000) by (nonlinear_arith)
        requires
            0 <= s1 * s1,
            c * c + sn * sn <= 100_000_000,
    ;
    assert(100_000_000 * (a * a) + 100_000_000 * (b * b) == 100_000_000 * (a * a + b * b)) by (
    nonlinear_arith);
    assert((s1 * s1) * 100_000_000 == 100_000_000 * (s1 * s1)) by (nonlinear_arith);
    assert(a * a + b * b <= s1 * s1) by (nonlinear_arith)
        requires
            100_000_000 * (a * a + b * b) <= 100_000_000 * (s1 * s1),
    ;
    if s1 >= 330_000 {
        vstd::arithmetic::mul::lemma_mul_inequality(330_000, s1, c);
        vstd::arithmetic::mul::lemma_mul_inequality(330_000, s1, sn);
        vstd::arithmetic::div_mod::lemma_div_is_ordered(330_000 * c, s1 * c, 10000);
        vstd::arithmetic::div_mod::lemma_div_is_ordered(330_000 * sn, s1 * sn, 10000);
        assert(330_000 * c == 10000 * (33 * c)) by (nonlinear_arith);
        assert(330_000 * sn == 10000 * (33 * sn)) by (nonlinear_arith);
        vstd::arithmetic::div_mod::lemma_div_multiples_vanish(33 * c, 10000);
        vstd::arithmetic::div_mod::lemma_div_multiples_vanish(33 * sn, 10000);
        assert(a >= 33 * c);
        assert(b >= 33 * sn);
        assert(a * a >= (33 * c) * (33 * c)) by (nonlinear_arith)
            requires
                0 <= 33 * c <= a,
        ;
        assert(b * b >= (33 * sn) * (33 * sn)) by (nonlinear_arith)
            requires
                0 <= 33 * sn <= b,
        ;
        assert((33 * c) * (33 * c) + (33 * sn) * (33 * sn) == 1089 * (c * c + sn * sn)) by (
        nonlinear_arith);
        assert(1089 * (c * c + sn * sn) >= 1089 * 99_900_000) by (nonlinear_arith)
            requires
                c * c + sn * sn >= 99_900_000,
        ;
    }
}

/// The scalar speed the next hit will measure never exceeds a bound
/// whose square bounds the squared magnitude: the rounded-down square
/// root is monotone. With the squared bound of
/// `lemma_emitted_magnitude`, the speed a bounce emits, as `speed_of`
/// measures it, never exceeds the scalar rally speed.
pub proof fn lemma_speed_of_bounded(vx: i64, vy: i64, s: int)
    requires
        0 <= s,
        vx * vx + vy * vy <= s * s,
    ensures
        speed_of(vx, vy) <= s,
{
    assert(vx * vx >= 0) by (nonlinear_arith);
    assert(vy * vy >= 0) by (nonlinear_arith);
    lemma_isqrt_spec_bounds((vx * vx + vy * vy) as nat);
    let r = isqrt_spec((vx * vx + vy * vy) as nat);
    if r > s {
        assert((s + 1) * (s + 1) <= r * r) by (nonlinear_arith)
            requires
                0 <= s + 1 <= r,
        ;
        assert(s * s < (s + 1) * (s + 1)) by (nonlinear_arith)
            requires
                0 <= s,
        ;
    }
}

/// Looks up the scaled cosine of offset step `k`.
pub fn lookup_bounce_cos(k: i64) -> (r: i64)
    requires
        0 <= k <= ANGLE_STEPS,
    ensures
        r == bounce_cos(k as int),
{
    if k == 0 {
        10000
    } else if k == 1 {
        9966
    } else if k == 2 {
        9866
    } else if k == 3 {
        9700
    } else if k == 4 {
        9469
    } else if k == 5 {
        9174
    } else if k == 6 {
        8819
    } else if k == 7 {
        8404
    } else if k == 8 {
        7933
    } else if k == 9 {
        7409
    } else if k == 10 {
        6835
    } else if k == 11 {
        6216
    } else if k == 12 {
        5555
    } else if k == 13 {
        4857
    } else if k == 14 {
        4127
    } else if k == 15 {
        3368
    } else {
        2588
    }
}

/// Looks up the scaled sine of offset step `k`.
pub fn lookup_bounce_sin(k: i64) -> (r: i64)
    requires
        0 <= k <= ANGLE_STEPS,
    ensures
        r == bounce_sin(k as int),
{
    if k == 0 {
        0
    } else if k == 1 {
        817
    } else if k == 2 {
        1628
    } else if k == 3 {
        2429
    } else if k == 4 {
        3214
    } else if k == 5 {
        3977
    } else if k == 6 {
        4713
    } else if k == 7 {
        5418
    } else if k == 8 {
        6087
    } else if k == 9 {
        6715
    } else if k == 10 {
        7298
    } else if k == 11 {
        7832
    } else if k == 12 {
        8314
    } else if k == 13 {
        8740
    } else if k == 14 {
        9108
    } else if k == 15 {
        9415
    } else {
        9659
    }
}

/// The ball's bounding box in whole pixels.
pub open spec fn ball_rect(b: Ball) -> Rectangle {
    Rectangle {
        x: (b.x / SUBPIXEL) as usize,
        y: (b.y / SUBPIXEL) as usize,
        width: b.size as usize,
        height: b.size as usize,
    }
}

/// The paddle's bounding box in whole pixels, extended toward its own
/// wall by the wall clearance, so that a fast ball cannot pass fully
/// behind the paddle within one step.
pub open spec fn extended_paddle_rect(p: Paddle, side: Side) -> Rectangle {
    Rectangle {
        x: (match side {
            Side::Left => 0,
            Side::Right => p.x / SUBPIXEL,
        }) as usize,
        y: (p.y / SUBPIXEL) as usize,
        width: (p.width + PADDLE_DISTANCE_WALL) as usize,
        height: p.height as usize,
    }
}

/// Whether the ball touches the paddle's extended box.
pub open spec fn paddle_hit(b: Ball, p: Paddle, side: Side) -> bool {
    overlapping(ball_rect(b), extended_paddle_rect(p, side))
}

/// Vertical center of the ball, in units.
pub open spec fn ball_center_y(b: Ball) -> int {
    b.y + b.size * SUBPIXEL / 2
}

/// Vertical center of a paddle, in units.
pub open spec fn paddle_center_y(p: Paddle) -> int {
    p.y + p.height * SUBPIXEL / 2
}

/// Which way the ball leaves vertically: down the paddle center, down;
/// above it, up (negative).
pub open spec fn offset_sign(b: Ball, p: Paddle) -> int {
    if ball_center_y(b) < paddle_center_y(p) {
        -1
    } else {
        1
    }
}

/// How far from the paddle center the ball struck, quantized into
/// `[0, ANGLE_STEPS]` steps of the half-height (the magnitude of the
/// hit offset, clamped to the paddle edge).
pub open spec fn offset_steps(b: Ball, p: Paddle) -> int {
    let dy = ball_center_y(b) - paddle_center_y(p);
    let mag = if dy < 0 {
        -dy
    } else {
        dy
    };
    let k = mag * ANGLE_STEPS / (p.height * SUBPIXEL / 2);
    if k > ANGLE_STEPS {
        ANGLE_STEPS as int
    } else {
        k
    }
}

/// Where the ball is snapped after a hit: flush against the paddle's
/// inner face, so it can never visually embed in the paddle.
pub open spec fn snap_x(p: Paddle, side: Side) -> int {
    match side {
        Side::Left => p.x + p.width * SUBPIXEL,
        Side::Right => p.x - BALL_SIZE * SUBPIXEL,
    }
}

/// The horizontal direction a paddle sends the ball: away from itself.
pub open spec fn side_sign(side: Side) -> int {
    match side {
        Side::Left => 1,
        Side::Right => -1,
    }
}

/// The ball after one paddle pass: unchanged on a miss; on a hit,
/// snapped to the paddle's inner face and redirected away from it by
/// the offset's table entry, at the scaled rally speed.
pub open spec fn hit_resolved(b: Ball, p: Paddle, side: Side) -> Ball {
    if !paddle_hit(b, p, side) {
        b
    } else {
        let s1 = speed_after_hit(speed_of(b.vx, b.vy));
        let k = offset_steps(b, p);
        Ball {
            x: snap_x(p, side) as i64,
            vx: (side_sign(side) * ((s1 * bounce_cos(k)) / (TRIG_SCALE as int))) as i64,
            vy: (offset_sign(b, p) * ((s1 * bounce_sin(k)) / (TRIG_SCALE as int))) as i64,
            ..b
        }
    }
}

/// Resolves a possible collision of the ball with one paddle: if their
/// boxes touch, snaps the ball flush to the paddle face and redirects
/// it away from the paddle at the bounce angle given by the hit offset,
/// with the rally speed grown by a tenth and capped.
pub fn handle_paddle_hit(ball: &mut Ball, paddle: &Paddle, side: Side, width: i64, height: i64)
    requires
        dims_valid(width, height),
        old(ball).wf(width, height),
        old(ball).rally_speed_ok(),
        paddle.wf(width, height, side),
    ensures
        *final(ball) == hit_resolved(*old(ball), *paddle, side),
        final(ball).wf(width, height),
        final(ball).rally_speed_ok(),
        final(ball).y == old(ball).y,
        final(ball).size == old(ball).size,
        !paddle_hit(*old(ball), *paddle, side) ==> *final(ball) == *old(ball),
        paddle_hit(*old(ball), *paddle, side) ==> ({
            let s1 = speed_after_hit(speed_of(old(ball).vx, old(ball).vy));
            &&& final(ball).vx * final(ball).vx + final(ball).vy * final(ball).vy <= s1 * s1
            &&& side == Side::Left ==> final(ball).vx > 0
            &&& side == Side::Right ==> final(ball).vx < 0
        }),
        paddle_hit(*old(ball), *paddle, side) ==> ({
            let s1 = speed_after_hit(speed_of(old(ball).vx, old(ball).vy));
            let k = offset_steps(*old(ball), *paddle);
            &&& final(ball).x == snap_x(*paddle, side)
            &&& final(ball).vx == side_sign(side) * ((s1 * bounce_cos(k)) / (TRIG_SCALE as int))
            &&& final(ball).vy == offset_sign(*old(ball), *paddle) * ((s1 * bounce_sin(k)) / (
            TRIG_SCALE as int))
        }),
{
    let brect = Rectangle {
        x: (ball.x / SUBPIXEL) as usize,
        y: (ball.y / SUBPIXEL) as usize,
        width: ball.size as usize,
        height: ball.size as usize,
    };
    let prect = match side {
        Side::Left => Rectangle {
            x: 0,
            y: (paddle.y / SUBPIXEL) as usize,
            width: (paddle.width + PADDLE_DISTANCE_WALL) as usize,
            height: paddle.height as usize,
        },
        Side::Right => Rectangle {
            x: (paddle.x / SUBPIXEL) as usize,
            y: (paddle.y / SUBPIXEL) as usize,
            width: (paddle.width + PADDLE_DISTANCE_WALL) as usize,
            height: paddle.height as usize,
        },
    };
    proof {
        assert(brect == ball_rect(*ball));
        assert(prect == extended_paddle_rect(*paddle, side));
    }
    if rectangles_overlapping(brect, prect) {
        ball.x = match side {
            Side::Left => paddle.x + paddle.width * SUBPIXEL,
            Side::Right => paddle.x - ball.size * SUBPIXEL,
        };
        let ball_c = ball.y + ball.size * SUBPIXEL / 2;
        let paddle_c = paddle.y + paddle.height * SUBPIXEL / 2;
        let downward = ball_c >= paddle_c;
        let mag = if downward {
            ball_c - paddle_c
        } else {
            paddle_c - ball_c
        };
        let half_h = paddle.height * SUBPIXEL / 2;
        let quotient = mag * ANGLE_STEPS / half_h;
        let k = if quotient > ANGLE_STEPS {
            ANGLE_STEPS
        } else {
            quotient
        };
        proof {
            vstd::arithmetic::div_mod::lemma_div_pos_is_pos(mag * ANGLE_STEPS, half_h as int);
            assert(k == offset_steps(*old(ball), *paddle));
            lemma_trig_bounds(k as int);
        }
        let s0 = ball_speed(ball.vx, ball.vy);
        let s1 = scaled_speed(s0);
        let c = lookup_bounce_cos(k);
        let sn = lookup_bounce_sin(k);
        proof {
            vstd::arithmetic::mul::lemma_mul_inequality(c as int, TRIG_SCALE as int, s1 as int);
            vstd::arithmetic::mul::lemma_mul_inequality(sn as int, TRIG_SCALE as int, s1 as int);
            vstd::arithmetic::mul::lemma_mul_is_commutative(s1 as int, c as int);
            vstd::arithmetic::mul::lemma_mul_is_commutative(s1 as int, sn as int);
            vstd::arithmetic::mul::lemma_mul_is_commutative(s1 as int, TRIG_SCALE as int);
            vstd::arithmetic::div_mod::lemma_div_is_ordered(
                s1 * c,
                s1 * TRIG_SCALE,
                TRIG_SCALE as int,
            );
            vstd::arithmetic::div_mod::lemma_div_is_ordered(
                s1 * sn,
                s1 * TRIG_SCALE,
                TRIG_SCALE as int,
            );
            vstd::arithmetic::div_mod::lemma_div_multiples_vanish(s1 as int, TRIG_SCALE as int);
            vstd::arithmetic::mul::lemma_mul_nonnegative(s1 as int, c as int);
            vstd::arithmetic::mul::lemma_mul_nonnegative(s1 as int, sn as int);
            vstd::arithmetic::div_mod::lemma_div_pos_is_pos(s1 * c, TRIG_SCALE as int);
            vstd::arithmetic::div_mod::lemma_div_pos_is_pos(s1 * sn, TRIG_SCALE as int);
            assert(s0 >= BALL_START_SPEED) by {
                if s0 < BALL_START_SPEED {
                    assert((s0 + 1) * (s0 + 1) <= 300_000 * 300_000) by (nonlinear_arith)
                        requires
                            0 <= s0 < 300_000,
                    ;
                }
            }
            vstd::arithmetic::div_mod::lemma_div_is_ordered(3_300_000int, 11 * (s0 as int), 10);
            assert(s1 >= 330_000);
            lemma_emitted_magnitude(s1 as int, k as int);
        }
        let vx_mag = s1 * c / TRIG_SCALE;
        let vy_mag = s1 * sn / TRIG_SCALE;
        ball.vx = match side {
            Side::Left => vx_mag,
            Side::Right => -vx_mag,
        };
        ball.vy = if downward {
            vy_mag
        } else {
            -vy_mag
        };
        proof {
            let a = vx_mag as int;
            let b = vy_mag as int;
            assert((-a) * (-a) == a * a) by (nonlinear_arith);
            assert((-b) * (-b) == b * b) by (nonlinear_arith);
            assert(vx_mag >= 33 * bounce_cos(k as int));
            assert(vx_mag > 0);
        }
    }
}

/// How far a velocity carries in `dt_ms` milliseconds, in units,
/// rounded toward zero (the integration is symmetric in direction).
pub open spec fn displacement(v: i64, dt_ms: i64) -> int {
    if v >= 0 {
        (v * dt_ms) / (MILLIS_PER_SECOND as int)
    } else {
        -(((-v) * dt_ms) / (MILLIS_PER_SECOND as int))
    }
}

/// The ball after integration: moved by its displacement over the tick.
pub open spec fn integrated(b: Ball, dt_ms: i64) -> Ball {
    Ball {
        x: (b.x + displacement(b.vx, dt_ms)) as i64,
        y: (b.y + displacement(b.vy, dt_ms)) as i64,
        ..b
    }
}

/// Advances the ball by its velocity over the elapsed time. The result
/// can leave the surface by at most one step of travel; the collision
/// passes that follow bring it back.
pub fn integrate_ball(ball: &mut Ball, dt_ms: i64, width: i64, height: i64)
    requires
        dims_valid(width, height),
        0 <= dt_ms <= MAX_DELTA_MS,
        old(ball).wf(width, height),
    ensures
        *final(ball) == integrated(*old(ball), dt_ms),
        final(ball).near_x_range(width),
        final(ball).near_y_range(height),
        final(ball).speed_ok(),
        final(ball).size == old(ball).size,
        -MAX_STEP_TRAVEL <= displacement(old(ball).vx, dt_ms) <= MAX_STEP_TRAVEL,
        -MAX_STEP_TRAVEL <= displacement(old(ball).vy, dt_ms) <= MAX_STEP_TRAVEL,
    {
    let dx = shift_within_step(ball.vx, dt_ms);
    let dy = shift_within_step(ball.vy, dt_ms);
    ball.x = ball.x + dx;
    ball.y = ball.y + dy;
}

/// Computes `displacement(v, dt_ms)` and bounds it by one step of
/// travel.
fn shift_within_step(v: i64, dt_ms: i64) -> (d: i64)
    requires
        0 <= dt_ms <= MAX_DELTA_MS,
        -MAX_BALL_SPEED <= v <= MAX_BALL_SPEED,
    ensures
        d == displacement(v, dt_ms),
        -MAX_STEP_TRAVEL <= d <= MAX_STEP_TRAVEL,
{
    let mag = if v >= 0 {
        v
    } else {
        -v
    };
    proof {
        assert(0 <= mag * dt_ms <= 80_000_000) by (nonlinear_arith)
            requires
                0 <= mag <= 800_000,
                0 <= dt_ms <= 100,
        ;
        vstd::arithmetic::div_mod::lemma_div_is_ordered(mag * dt_ms, 80_000_000, 1000);
        vstd::arithmetic::div_mod::lemma_div_pos_is_pos(mag * dt_ms, 1000);
        assert(80_000_000int / 1000int == 80_000);
    }
    let shift = mag * dt_ms / MILLIS_PER_SECOND;
    if v >= 0 {
        shift
    } else {
        -shift
    }
}

/// The ball after the top and bottom walls: clamped to the wall and
/// reflected on contact, untouched in between.
pub open spec fn walls_resolved(b: Ball, height: i64) -> Ball {
    let hi = (height - b.size) * SUBPIXEL;
    if b.y >= hi {
        Ball { y: hi as i64, vy: (-b.vy) as i64, ..b }
    } else if b.y <= 0 {
        Ball { y: 0, vy: (-b.vy) as i64, ..b }
    } else {
        b
    }
}

/// Reflects the ball off the top or bottom wall: on contact the
/// position is clamped to the wall and the vertical velocity changes
/// sign with its magnitude intact.
pub fn resolve_vertical_walls(ball: &mut Ball, height: i64)
    requires
        MIN_SURFACE_HEIGHT <= height <= MAX_SURFACE_DIM,
        old(ball).size == BALL_SIZE,
        old(ball).speed_ok(),
        old(ball).near_y_range(height),
    ensures
        *final(ball) == walls_resolved(*old(ball), height),
        final(ball).in_y_range(height),
        final(ball).speed_ok(),
        final(ball).vx * final(ball).vx + final(ball).vy * final(ball).vy == old(ball).vx * old(
            ball,
        ).vx + old(ball).vy * old(ball).vy,
        old(ball).y >= (height - old(ball).size) * SUBPIXEL ==> *final(ball) == (Ball {
            y: ((height - old(ball).size) * SUBPIXEL) as i64,
            vy: (-old(ball).vy) as i64,
            ..*old(ball)
        }),
        old(ball).y < (height - old(ball).size) * SUBPIXEL && old(ball).y <= 0 ==> *final(ball)
            == (Ball { y: 0, vy: (-old(ball).vy) as i64, ..*old(ball) }),
        0 < old(ball).y < (height - old(ball).size) * SUBPIXEL ==> *final(ball) == *old(ball),
{
    proof {
        let v = old(ball).vy as int;
        assert((-v) * (-v) == v * v) by (nonlinear_arith);
    }
    let hi = (height - ball.size) * SUBPIXEL;
    if ball.y >= hi {
        ball.y = hi;
        ball.vy = -ball.vy;
    } else if ball.y <= 0 {
        ball.y = 0;
        ball.vy = -ball.vy;
    }
}

/// Where the ball is put back after a point: centered horizontally.
pub open spec fn serve_x(width: i64) -> int {
    (width / 2 - BALL_SIZE / 2) * SUBPIXEL
}

/// Where the ball is put back after a point: aligned with the center of
/// the paddle that conceded it.
pub open spec fn reset_y(p: Paddle) -> int {
    p.y + (p.height / 2 - BALL_SIZE / 2) * SUBPIXEL
}

/// The match after the side walls: reflection in wall-bounce mode; in
/// two-paddle mode a point for the far wall's defender, the ball
/// re-served toward the conceder with a freshly drawn vertical
/// velocity; untouched when no edge was reached.
pub open spec fn horizontal_resolved(e: PhysicsEngine) -> PhysicsEngine {
    let hi = (e.width - e.ball.size) * SUBPIXEL;
    match e.mode {
        GameMode::WallBounce => {
            if e.ball.x >= hi {
                PhysicsEngine { ball: (Ball { x: hi as i64, vx: (-e.ball.vx) as i64, ..e.ball }), ..e }
            } else if e.ball.x <= 0 {
                PhysicsEngine { ball: (Ball { x: 0, vx: (-e.ball.vx) as i64, ..e.ball }), ..e }
            } else {
                e
            }
        },
        GameMode::TwoPaddle => {
            if e.ball.x >= hi {
                PhysicsEngine {
                    ball: (Ball {
                        x: serve_x(e.width) as i64,
                        y: reset_y(e.right) as i64,
                        vx: BALL_START_SPEED as i64,
                        vy: range_outcome(
                            e.rng.state,
                            (-BALL_START_SPEED) as i64,
                            BALL_START_SPEED as i64,
                        ) as i64,
                        ..e.ball
                    }),
                    left: (Paddle { score: (e.left.score + 1) as u64, ..e.left }),
                    rng: (Rng { state: lcg_next(e.rng.state) }),
                    ..e
                }
            } else if e.ball.x <= 0 {
                PhysicsEngine {
                    ball: (Ball {
                        x: serve_x(e.width) as i64,
                        y: reset_y(e.left) as i64,
                        vx: (-BALL_START_SPEED) as i64,
                        vy: range_outcome(
                            e.rng.state,
                            (-BALL_START_SPEED) as i64,
                            BALL_START_SPEED as i64,
                        ) as i64,
                        ..e.ball
                    }),
                    right: (Paddle { score: (e.right.score + 1) as u64, ..e.right }),
                    rng: (Rng { state: lcg_next(e.rng.state) }),
                    ..e
                }
            } else {
                e
            }
        },
    }
}

/// The match after the winning-score check.
pub open spec fn end_checked(e: PhysicsEngine) -> PhysicsEngine {
    PhysicsEngine {
        state: if e.left.score >= WINNING_SCORE || e.right.score >= WINNING_SCORE {
            MatchState::Finished
        } else {
            e.state
        },
        ..e
    }
}

/// One whole tick as a function of the incoming state: untouched
/// outside of play; in play, integration, then the top and bottom
/// walls, then the side walls or scoring, then the winning-score
/// check, then the right and the left paddle pass, in that order.
pub open spec fn step_spec(e: PhysicsEngine, dt_ms: i64) -> PhysicsEngine {
    if e.state != MatchState::Playing {
        e
    } else {
        let e1 = PhysicsEngine { ball: integrated(e.ball, dt_ms), ..e };
        let e2 = PhysicsEngine { ball: walls_resolved(e1.ball, e1.height), ..e1 };
        let e3 = horizontal_resolved(e2);
        let e4 = end_checked(e3);
        let e5 = PhysicsEngine { ball: hit_resolved(e4.ball, e4.right, Side::Right), ..e4 };
        PhysicsEngine { ball: hit_resolved(e5.ball, e5.left, Side::Left), ..e5 }
    }
}

impl PhysicsEngine {
    /// Resolves the side walls. In wall-bounce mode the ball reflects
    /// exactly as off the top and bottom. In two-paddle mode a ball
    /// that reaches the right wall scores for the left player and one
    /// that reaches the left wall scores for the right player; the ball
    /// is then put back at the center, aligned with the conceding
    /// paddle, and served toward it with a freshly drawn vertical
    /// velocity.
    pub fn resolve_horizontal(&mut self)
        requires
            dims_valid(old(self).width, old(self).height),
            old(self).left.wf(old(self).width, old(self).height, Side::Left),
            old(self).right.wf(old(self).width, old(self).height, Side::Right),
            old(self).ball.size == BALL_SIZE,
            old(self).ball.speed_ok(),
            old(self).ball.near_x_range(old(self).width),
            old(self).ball.in_y_range(old(self).height),
            old(self).left.score < WINNING_SCORE,
            old(self).right.score < WINNING_SCORE,
        ensures
            *final(self) == horizontal_resolved(*old(self)),
            old(self).ball.rally_speed_ok() ==> final(self).ball.rally_speed_ok(),
            final(self).ball.in_x_range(final(self).width),
            final(self).ball.in_y_range(final(self).height),
            final(self).ball.speed_ok(),
            final(self).ball.size == BALL_SIZE,
            final(self).width == old(self).width,
            final(self).height == old(self).height,
            final(self).mode == old(self).mode,
            final(self).state == old(self).state,
            final(self).left.y == old(self).left.y,
            final(self).right.y == old(self).right.y,
            final(self).left.x == old(self).left.x,
            final(self).right.x == old(self).right.x,
            final(self).left.width == old(self).left.width,
            final(self).right.width == old(self).right.width,
            final(self).left.height == old(self).left.height,
            final(self).right.height == old(self).right.height,
            old(self).mode == GameMode::WallBounce ==> ({
                let hi = (old(self).width - old(self).ball.size) * SUBPIXEL;
                &&& final(self).left.score == old(self).left.score
                &&& final(self).right.score == old(self).right.score
                &&& final(self).rng == old(self).rng
                &&& old(self).ball.x >= hi ==> final(self).ball == (Ball {
                    x: hi as i64,
                    vx: (-old(self).ball.vx) as i64,
                    ..old(self).ball
                })
                &&& old(self).ball.x < hi && old(self).ball.x <= 0 ==> final(self).ball == (Ball {
                    x: 0,
                    vx: (-old(self).ball.vx) as i64,
                    ..old(self).ball
                })
                &&& 0 < old(self).ball.x < hi ==> final(self).ball == old(self).ball
            }),
            old(self).mode == GameMode::TwoPaddle ==> ({
                let hi = (old(self).width - old(self).ball.size) * SUBPIXEL;
                &&& old(self).ball.x >= hi ==> ({
                    &&& final(self).left.score == old(self).left.score + 1
                    &&& final(self).right.score == old(self).right.score
                    &&& final(self).ball.x == serve_x(old(self).width)
                    &&& final(self).ball.y == reset_y(old(self).right)
                    &&& final(self).ball.vx == BALL_START_SPEED
                    &&& final(self).ball.vy == range_outcome(
                        old(self).rng.state,
                        (-BALL_START_SPEED) as i64,
                        BALL_START_SPEED as i64,
                    )
                    &&& final(self).rng.state == lcg_next(old(self).rng.state)
                })
                &&& old(self).ball.x < hi && old(self).ball.x <= 0 ==> ({
                    &&& final(self).right.score == old(self).right.score + 1
                    &&& final(self).left.score == old(self).left.score
                    &&& final(self).ball.x == serve_x(old(self).width)
                    &&& final(self).ball.y == reset_y(old(self).left)
                    &&& final(self).ball.vx == -BALL_START_SPEED
                    &&& final(self).ball.vy == range_outcome(
                        old(self).rng.state,
                        (-BALL_START_SPEED) as i64,
                        BALL_START_SPEED as i64,
                    )
                    &&& final(self).rng.state == lcg_next(old(self).rng.state)
                })
                &&& 0 < old(self).ball.x < hi ==> ({
                    &&& final(self).ball == old(self).ball
                    &&& final(self).left.score == old(self).left.score
                    &&& final(self).right.score == old(self).right.score
                    &&& final(self).rng == old(self).rng
                })
            }),
    {
        proof {
            let v = old(self).ball.vx as int;
            assert((-v) * (-v) == v * v) by (nonlinear_arith);
            assert((-BALL_START_SPEED) * (-BALL_START_SPEED) == BALL_START_SPEED
                * BALL_START_SPEED) by (nonlinear_arith);
        }
        let hi = (self.width - self.ball.size) * SUBPIXEL;
        match self.mode {
            GameMode::WallBounce => {
                if self.ball.x >= hi {
                    self.ball.x = hi;
                    self.ball.vx = -self.ball.vx;
                } else if self.ball.x <= 0 {
                    self.ball.x = 0;
                    self.ball.vx = -self.ball.vx;
                }
            },
            GameMode::TwoPaddle => {
                if self.ball.x >= hi {
                    self.ball.x = (self.width / 2 - self.ball.size / 2) * SUBPIXEL;
                    self.ball.y = self.right.y + (self.right.height / 2 - self.ball.size / 2)
                        * SUBPIXEL;
                    self.ball.vx = BALL_START_SPEED;
                    self.ball.vy = self.rng.random_range(-BALL_START_SPEED, BALL_START_SPEED);
                    self.left.score = self.left.score + 1;
                    proof {
                        let v = self.ball.vy as int;
                        assert(v * v >= 0) by (nonlinear_arith);
                    }
                } else if self.ball.x <= 0 {
                    self.ball.x = (self.width / 2 - self.ball.size / 2) * SUBPIXEL;
                    self.ball.y = self.left.y + (self.left.height / 2 - self.ball.size / 2)
                        * SUBPIXEL;
                    self.ball.vx = -BALL_START_SPEED;
                    self.ball.vy = self.rng.random_range(-BALL_START_SPEED, BALL_START_SPEED);
                    self.right.score = self.right.score + 1;
                    proof {
                        let v = self.ball.vy as int;
                        assert(v * v >= 0) by (nonlinear_arith);
                    }
                }
            },
        }
    }

    /// Ends the match once either score has reached the winning
    /// threshold; otherwise changes nothing.
    pub fn check_match_end(&mut self)
        ensures
            *final(self) == end_checked(*old(self)),
            *final(self) == (PhysicsEngine {
                state: if old(self).left.score >= WINNING_SCORE || old(self).right.score
                    >= WINNING_SCORE {
                    MatchState::Finished
                } else {
                    old(self).state
                },
                ..*old(self)
            }),
    {
        if self.left.score >= WINNING_SCORE || self.right.score >= WINNING_SCORE {
            self.state = MatchState::Finished;
        }
    }

    /// One tick of the simulation while the match is in play: integrate
    /// the ball, reflect it off the top and bottom walls, resolve the
    /// side walls (scoring in two-paddle mode), end the match on the
    /// winning score, then resolve paddle collisions. Outside of play
    /// the state is untouched. Whatever happened, the ball ends the
    /// tick inside the surface.
    #[verifier::rlimit(60)]
    pub fn step(&mut self, dt_ms: i64)
        requires
            old(self).wf(),
            0 <= dt_ms <= MAX_DELTA_MS,
        ensures
            *final(self) == step_spec(*old(self), dt_ms),
            final(self).wf(),
            final(self).width == old(self).width,
            final(self).height == old(self).height,
            final(self).mode == old(self).mode,
            final(self).ball.in_x_range(final(self).width),
            final(self).ball.in_y_range(final(self).height),
            old(self).state != MatchState::Playing ==> *final(self) == *old(self),
            old(self).state == MatchState::Playing ==> ({
                let bx = old(self).ball.x + displacement(old(self).ball.vx, dt_ms);
                let hi = (old(self).width - BALL_SIZE) * SUBPIXEL;
                &&& (final(self).state == MatchState::Finished <==> final(self).left.score
                    >= WINNING_SCORE || final(self).right.score >= WINNING_SCORE)
                &&& (final(self).state == MatchState::Playing || final(self).state
                    == MatchState::Finished)
                &&& old(self).mode == GameMode::TwoPaddle && bx >= hi ==> ({
                    &&& final(self).left.score == old(self).left.score + 1
                    &&& final(self).right.score == old(self).right.score
                    &&& final(self).ball.x == serve_x(old(self).width)
                })
                &&& old(self).mode == GameMode::TwoPaddle && bx < hi && bx <= 0 ==> ({
                    &&& final(self).right.score == old(self).right.score + 1
                    &&& final(self).left.score == old(self).left.score
                    &&& final(self).ball.x == serve_x(old(self).width)
                })
                &&& old(self).mode == GameMode::TwoPaddle && 0 < bx < hi ==> ({
                    &&& final(self).left.score == old(self).left.score
                    &&& final(self).right.score == old(self).right.score
                })
                &&& old(self).mode == GameMode::WallBounce ==> ({
                    &&& final(self).left.score == old(self).left.score
                    &&& final(self).right.score == old(self).right.score
                })
            }),
    {
        if !matches!(self.state, MatchState::Playing) {
            return ;
        }
        let ghost g0 = *self;
        integrate_ball(&mut self.ball, dt_ms, self.width, self.height);
        let ghost g1 = PhysicsEngine { ball: integrated(g0.ball, dt_ms), ..g0 };
        proof {
            assert(*self == g1);
        }
        resolve_vertical_walls(&mut self.ball, self.height);
        let ghost g2 = PhysicsEngine { ball: walls_resolved(g1.ball, g1.height), ..g1 };
        proof {
            assert(*self == g2);
        }
        self.resolve_horizontal();
        let ghost g3 = horizontal_resolved(g2);
        proof {
            assert(*self == g3);
        }
        self.check_match_end();
        let ghost g4 = end_checked(g3);
        proof {
            assert(*self == g4);
            if self.mode == GameMode::TwoPaddle && !(0 < g0.ball.x + displacement(
                g0.ball.vx,
                dt_ms,
            ) < (self.width - BALL_SIZE) * SUBPIXEL) {
                lemma_no_hit_at_serve_x(self.ball, self.left, Side::Left, self.width, self.height);
                lemma_no_hit_at_serve_x(
                    self.ball,
                    self.right,
                    Side::Right,
                    self.width,
                    self.height,
                );
            }
        }
        handle_paddle_hit(&mut self.ball, &self.right, Side::Right, self.width, self.height);
        let ghost g5 = PhysicsEngine { ball: hit_resolved(g4.ball, g4.right, Side::Right), ..g4 };
        proof {
            assert(*self == g5);
        }
        handle_paddle_hit(&mut self.ball, &self.left, Side::Left, self.width, self.height);
        let ghost g6 = PhysicsEngine { ball: hit_resolved(g5.ball, g5.left, Side::Left), ..g5 };
        proof {
            assert(*self == g6);
            assert(step_spec(g0, dt_ms) == g6);
        }
    }
}

/// A ball sitting at the serve position is clear of both paddles'
/// extended boxes, so a fresh serve is never immediately re-hit.
proof fn lemma_no_hit_at_serve_x(b: Ball, p: Paddle, side: Side, width: i64, height: i64)
    requires
        dims_valid(width, height),
        p.wf(width, height, side),
        b.size == BALL_SIZE,
        b.x == serve_x(width),
    ensures
        !paddle_hit(b, p, side),
{
    let px = width / 2 - BALL_SIZE / 2;
    vstd::arithmetic::mul::lemma_mul_is_commutative(px, SUBPIXEL as int);
    vstd::arithmetic::div_mod::lemma_div_multiples_vanish(px, SUBPIXEL as int);
    assert((b.x as int) / (SUBPIXEL as int) == px);
    match side {
        Side::Left => {
            assert(ball_rect(b).x > extended_paddle_rect(p, side).x + extended_paddle_rect(
                p,
                side,
            ).width);
        },
        Side::Right => {
            let rx = width - PADDLE_WIDTH - PADDLE_DISTANCE_WALL;
            vstd::arithmetic::mul::lemma_mul_is_commutative(rx, SUBPIXEL as int);
            vstd::arithmetic::div_mod::lemma_div_multiples_vanish(rx, SUBPIXEL as int);
            assert((p.x as int) / (SUBPIXEL as int) == rx);
            assert(ball_rect(b).x + ball_rect(b).width < extended_paddle_rect(p, side).x);
        },
    }
}

/// The bounce direction at the offset extremes: a hit at the paddle
/// center leaves purely horizontally at the full new speed, and a hit
/// a full half-height from the center leaves at the maximum configured
/// bounce angle (the last entries of the direction tables).
pub proof fn lemma_bounce_extremes(b: Ball, p: Paddle, s: int)
    requires
        p.height == PADDLE_HEIGHT,
        0 <= s,
    ensures
        ball_center_y(b) == paddle_center_y(p) ==> offset_steps(b, p) == 0,
        s * bounce_cos(0) / (TRIG_SCALE as int) == s,
        s * bounce_sin(0) / (TRIG_SCALE as int) == 0,
        ball_center_y(b) - paddle_center_y(p) == p.height * SUBPIXEL / 2 ==> offset_steps(b, p)
            == ANGLE_STEPS,
        paddle_center_y(p) - ball_center_y(b) == p.height * SUBPIXEL / 2 ==> offset_steps(b, p)
            == ANGLE_STEPS,
{
    vstd::arithmetic::mul::lemma_mul_is_commutative(s, TRIG_SCALE as int);
    vstd::arithmetic::div_mod::lemma_div_multiples_vanish(s, TRIG_SCALE as int);
    assert(s * 0 == 0) by (nonlinear_arith);
    vstd::arithmetic::div_mod::lemma_div_multiples_vanish(ANGLE_STEPS as int, 40000);
    vstd::arithmetic::mul::lemma_mul_is_commutative(ANGLE_STEPS as int, 40000);
}

/// `y + delta` forced into `[0, hi]`, computed without overflow for any
/// `delta`.
pub fn clamp_shift(y: i64, delta: i64, hi: i64) -> (r: i64)
    requires
        0 <= y <= hi,
        hi <= MAX_SURFACE_DIM * SUBPIXEL,
    ensures
        r == clamped(y + delta, 0, hi as int),
{
    if delta >= 0 {
        if delta >= hi - y {
            hi
        } else {
            y + delta
        }
    } else {
        if delta <= -y {
            0
        } else {
            y + delta
        }
    }
}

} // verus!
