use vstd::prelude::*;

use crate::game::{GameEvent, InputEvent};

verus! {

/// The time between two redraws, in milliseconds (about 60 frames a second).
pub const FRAME_MS: u64 = 16;

/// What one pass of the main loop does after the input, if any, was handled.
#[derive(Clone, Copy, PartialEq, Eq, Debug, Structural)]
pub struct LoopStep {
    /// Leave the loop.
    pub stop: bool,
    /// Let gravity act once.
    pub tick: bool,
    /// Restart the gravity timer.
    pub reset_drop_timer: bool,
    /// Redraw the screen.
    pub redraw: bool,
}

/// The decisions of one pass of the main loop. `answer` is what the game answered to
/// the input of this pass, if there was one; `since_drop_ms` is the time since the
/// gravity timer last restarted, `drop_ms` the gravity interval of the current level,
/// and `since_frame_ms` the time since the last redraw.
///
/// Quitting leaves the loop. A hard drop restarts the gravity timer, so the next piece
/// gets a full interval; otherwise gravity acts once the interval has passed, and
/// restarts the timer. The screen is redrawn once a frame has passed.
pub fn loop_step(answer: Option<GameEvent>, since_drop_ms: u64, drop_ms: u64, since_frame_ms: u64) -> (s: LoopStep)
    ensures
        s.stop == (answer == Some(GameEvent::Quit)),
        s.tick == (!s.stop && answer != Some(GameEvent::HardDropped) && since_drop_ms >= drop_ms),
        s.reset_drop_timer == (answer == Some(GameEvent::HardDropped) || s.tick),
        s.redraw == (!s.stop && since_frame_ms >= FRAME_MS),
{
    let stop = match answer {
        Some(GameEvent::Quit) => true,
        _ => false,
    };
    let hard_dropped = match answer {
        Some(GameEvent::HardDropped) => true,
        _ => false,
    };
    let tick = !stop && !hard_dropped && since_drop_ms >= drop_ms;
    LoopStep { stop, tick, reset_drop_timer: hard_dropped || tick, redraw: !stop && since_frame_ms >= FRAME_MS }
}

/// How a pass of the main loop ends.
#[derive(Clone, Copy, PartialEq, Eq, Debug, Structural)]
pub enum PassEnd {
    /// Go on with the next pass.
    Continue,
    /// Show the final screen, wait for a key, then leave the loop.
    FinalScreen,
}

/// A pass ends with the final screen once the game is over.
pub fn pass_end(game_over: bool) -> (e: PassEnd)
    ensures
        e == (if game_over {
            PassEnd::FinalScreen
        } else {
            PassEnd::Continue
        }),
{
    if game_over {
        PassEnd::FinalScreen
    } else {
        PassEnd::Continue
    }
}

/// The final screen waits until a key that stands for a game input is pressed.
pub fn final_screen_done(input: Option<InputEvent>) -> (done: bool)
    ensures
        done == (input is Some),
{
    input.is_some()
}

} // verus!
