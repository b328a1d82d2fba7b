use vstd::prelude::*;

use crate::buffer::{rect_covers, Buffer, BACKGROUND, WHITE};
use crate::physics::{
    clamped, default_ball, MatchState, PhysicsEngine, Side, MAX_DELTA_MS, PADDLE_SPEED, SUBPIXEL,
    WINNING_SCORE,
};
use crate::rand::lcg_next;

verus! {

/// One drained input event, as the platform reports it: a printable
/// character or one of the two special cursor keys the game reads.
#[derive(Clone, Copy, PartialEq, Eq, Structural, Debug)]
pub enum Key {
    Printable(char),
    Up,
    Down,
}

/// What a key means in the current match phase.
#[derive(Clone, Copy, PartialEq, Eq, Structural, Debug)]
pub enum Command {
    Quit,
    Serve,
    LeftUp,
    LeftDown,
    RightUp,
    RightDown,
}

/// The key bindings, by match phase. While the match is in play the
/// letter keys steer the left paddle and the cursor keys the right one;
/// outside of play only quitting and serving are understood, and move
/// keys are dropped rather than buffered.
pub open spec fn key_command(state: MatchState, k: Key) -> Option<Command> {
    match k {
        Key::Printable(c) => {
            if c == 'q' || c == 'Q' {
                Some(Command::Quit)
            } else if state == MatchState::Playing {
                if c == 'w' || c == 'W' {
                    Some(Command::LeftUp)
                } else if c == 's' || c == 'S' {
                    Some(Command::LeftDown)
                } else {
                    None
                }
            } else if c == ' ' {
                Some(Command::Serve)
            } else {
                None
            }
        },
        Key::Up => {
            if state == MatchState::Playing {
                Some(Command::RightUp)
            } else {
                None
            }
        },
        Key::Down => {
            if state == MatchState::Playing {
                Some(Command::RightDown)
            } else {
                None
            }
        },
    }
}

/// Maps a drained key to its command under the current match phase.
pub fn command_for_key(state: MatchState, k: Key) -> (c: Option<Command>)
    ensures
        c == key_command(state, k),
{
    match k {
        Key::Printable(ch) => {
            if ch == 'q' || ch == 'Q' {
                Some(Command::Quit)
            } else if state == MatchState::Playing {
                if ch == 'w' || ch == 'W' {
                    Some(Command::LeftUp)
                } else if ch == 's' || ch == 'S' {
                    Some(Command::LeftDown)
                } else {
                    None
                }
            } else if ch == ' ' {
                Some(Command::Serve)
            } else {
                None
            }
        },
        Key::Up => {
            if state == MatchState::Playing {
                Some(Command::RightUp)
            } else {
                None
            }
        },
        Key::Down => {
            if state == MatchState::Playing {
                Some(Command::RightDown)
            } else {
                None
            }
        },
    }
}

/// What the idle screen shows: the winner and margin after a finished
/// match, or the invitation to serve before the first one.
#[derive(Clone, Copy, PartialEq, Eq, Structural, Debug)]
pub enum IdleScreen {
    LeftWon { margin: u64 },
    RightWon { margin: u64 },
    PressStart,
}

/// The idle message owed for a pair of scores.
pub open spec fn idle_screen_for(left: u64, right: u64) -> IdleScreen {
    if left >= WINNING_SCORE {
        IdleScreen::LeftWon { margin: (left - right) as u64 }
    } else if right >= WINNING_SCORE {
        IdleScreen::RightWon { margin: (right - left) as u64 }
    } else {
        IdleScreen::PressStart
    }
}

impl PhysicsEngine {
    /// Starts play: scores are cleared (they only carry a winner when
    /// the previous match finished), and the ball is rebuilt at the
    /// center with a freshly drawn serve direction.
    pub fn serve(&mut self)
        requires
            old(self).wf(),
            old(self).state != MatchState::Playing,
        ensures
            final(self).wf(),
            final(self).state == MatchState::Playing,
            final(self).left.score == 0,
            final(self).right.score == 0,
            final(self).ball == default_ball(old(self).width, old(self).height, old(self).rng.state),
            final(self).rng.state == lcg_next(old(self).rng.state),
            final(self).width == old(self).width,
            final(self).height == old(self).height,
            final(self).mode == old(self).mode,
            final(self).left.y == old(self).left.y,
            final(self).right.y == old(self).right.y,
    {
        if matches!(self.state, MatchState::Finished) {
            self.left.score = 0;
            self.right.score = 0;
        }
        let b = crate::physics::get_default_ball(self.width, self.height, &mut self.rng);
        self.ball = b;
        self.state = MatchState::Playing;
    }

    /// Applies one drained key: quitting is reported to the caller;
    /// serving and paddle movement change the match; anything else is
    /// ignored.
    pub fn handle_key(&mut self, k: Key) -> (quit: bool)
        requires
            old(self).wf(),
        ensures
            final(self).wf(),
            quit == (key_command(old(self).state, k) == Some(Command::Quit)),
            key_command(old(self).state, k) == None::<Command> ==> *final(self) == *old(self),
            key_command(old(self).state, k) == Some(Command::Quit) ==> *final(self) == *old(self),
            key_command(old(self).state, k) == Some(Command::Serve) ==> ({
                &&& final(self).state == MatchState::Playing
                &&& final(self).left.score == 0
                &&& final(self).right.score == 0
                &&& final(self).ball == default_ball(
                    old(self).width,
                    old(self).height,
                    old(self).rng.state,
                )
                &&& final(self).rng.state == lcg_next(old(self).rng.state)
                &&& final(self).left.y == old(self).left.y
                &&& final(self).right.y == old(self).right.y
                &&& final(self).width == old(self).width
                &&& final(self).height == old(self).height
                &&& final(self).mode == old(self).mode
            }),
            key_command(old(self).state, k) == Some(Command::LeftUp) ==> moved(
                *old(self),
                *final(self),
                Side::Left,
                (-PADDLE_SPEED) as i64,
            ),
            key_command(old(self).state, k) == Some(Command::LeftDown) ==> moved(
                *old(self),
                *final(self),
                Side::Left,
                PADDLE_SPEED as i64,
            ),
            key_command(old(self).state, k) == Some(Command::RightUp) ==> moved(
                *old(self),
                *final(self),
                Side::Right,
                (-PADDLE_SPEED) as i64,
            ),
            key_command(old(self).state, k) == Some(Command::RightDown) ==> moved(
                *old(self),
                *final(self),
                Side::Right,
                PADDLE_SPEED as i64,
            ),
    {
        match command_for_key(self.state, k) {
            None => false,
            Some(Command::Quit) => true,
            Some(Command::Serve) => {
                self.serve();
                false
            },
            Some(Command::LeftUp) => {
                self.move_paddle(Side::Left, -PADDLE_SPEED);
                false
            },
            Some(Command::LeftDown) => {
                self.move_paddle(Side::Left, PADDLE_SPEED);
                false
            },
            Some(Command::RightUp) => {
                self.move_paddle(Side::Right, -PADDLE_SPEED);
                false
            },
            Some(Command::RightDown) => {
                self.move_paddle(Side::Right, PADDLE_SPEED);
                false
            },
        }
    }

    /// The message owed on the idle screen for the current scores.
    pub fn idle_message(&self) -> (m: IdleScreen)
        requires
            self.wf(),
        ensures
            m == idle_screen_for(self.left.score, self.right.score),
    {
        if self.left.score >= WINNING_SCORE {
            IdleScreen::LeftWon { margin: self.left.score - self.right.score }
        } else if self.right.score >= WINNING_SCORE {
            IdleScreen::RightWon { margin: self.right.score - self.left.score }
        } else {
            IdleScreen::PressStart
        }
    }
}

/// The named paddle moved by `delta` and clamped; everything else as it
/// was.
pub open spec fn moved(before: PhysicsEngine, after: PhysicsEngine, side: Side, delta: i64) -> bool {
    &&& after.paddle(side).y == clamped(
        before.paddle(side).y + delta,
        0,
        before.paddle(side).y_max(before.height),
    )
    &&& side == Side::Left ==> after == (PhysicsEngine {
        left: (crate::physics::Paddle { y: after.left.y, ..before.left }),
        ..before
    })
    &&& side == Side::Right ==> after == (PhysicsEngine {
        right: (crate::physics::Paddle { y: after.right.y, ..before.right }),
        ..before
    })
}

/// Whether the drawn frame covers a pixel: the ball's box or either
/// paddle's box, all filled, in whole-pixel coordinates.
pub open spec fn frame_covers(e: PhysicsEngine, px: int, py: int) -> bool {
    ||| rect_covers(
        ((e.ball.x as int) / (SUBPIXEL as int)) as usize,
        ((e.ball.y as int) / (SUBPIXEL as int)) as usize,
        e.ball.size as usize,
        e.ball.size as usize,
        true,
        px,
        py,
    )
    ||| rect_covers(
        ((e.left.x as int) / (SUBPIXEL as int)) as usize,
        ((e.left.y as int) / (SUBPIXEL as int)) as usize,
        e.left.width as usize,
        e.left.height as usize,
        true,
        px,
        py,
    )
    ||| rect_covers(
        ((e.right.x as int) / (SUBPIXEL as int)) as usize,
        ((e.right.y as int) / (SUBPIXEL as int)) as usize,
        e.right.width as usize,
        e.right.height as usize,
        true,
        px,
        py,
    )
}

/// Draws one frame of the match into the surface: background
/// everywhere, the ball and the two paddles as filled white boxes.
pub fn render(e: &PhysicsEngine, b: &mut Buffer)
    requires
        e.wf(),
        old(b).wf(),
        old(b).width == e.width as usize,
        old(b).height == e.height as usize,
    ensures
        final(b).wf(),
        final(b).width == old(b).width,
        final(b).height == old(b).height,
        forall|px: int, py: int|
            0 <= px < final(b).width && 0 <= py < final(b).height
                ==> #[trigger] final(b).pixel(px, py) == (if frame_covers(*e, px, py) {
                WHITE
            } else {
                BACKGROUND
            }),
{
    b.clear();
    b.rectangle(
        (e.ball.x / SUBPIXEL) as usize,
        (e.ball.y / SUBPIXEL) as usize,
        e.ball.size as usize,
        e.ball.size as usize,
        WHITE,
        true,
    );
    b.rectangle(
        (e.left.x / SUBPIXEL) as usize,
        (e.left.y / SUBPIXEL) as usize,
        e.left.width as usize,
        e.left.height as usize,
        WHITE,
        true,
    );
    b.rectangle(
        (e.right.x / SUBPIXEL) as usize,
        (e.right.y / SUBPIXEL) as usize,
        e.right.width as usize,
        e.right.height as usize,
        WHITE,
        true,
    );
}

/// Converts an elapsed span of the monotonic tick counter into the
/// milliseconds one simulation step advances by: `ticks * 1000 /
/// ticks_per_second`, clamped to `MAX_DELTA_MS` so that a long stall
/// cannot fling the ball across the surface.
pub fn delta_millis(delta_ticks: u64, ticks_per_second: u64) -> (ms: i64)
    requires
        ticks_per_second > 0,
    ensures
        ms == clamped((delta_ticks * 1000) / (ticks_per_second as int), 0, MAX_DELTA_MS as int),
        0 <= ms <= MAX_DELTA_MS,
{
    let scaled: u128 = (delta_ticks as u128) * 1000;
    let q: u128 = scaled / (ticks_per_second as u128);
    if q >= MAX_DELTA_MS as u128 {
        MAX_DELTA_MS
    } else {
        q as i64
    }
}

} // verus!
