//! Decision logic of the interaction loop and of terminal cleanup.
//!
//! The loop itself performs I/O — drawing a frame, polling the input source,
//! restoring the terminal — and therefore lives outside the library. What is
//! verified here is every decision the loop makes: when it terminates, how a
//! poll outcome is fed into the session, and which of the cleanup failures is
//! surfaced to the caller.

use crate::game::key_step;
use crate::game::AppState;
use crate::game::GameStatus;
use crate::game::Key;
use vstd::prelude::*;

verus! {

/// What one poll of the input source produced within its timeout: nothing,
/// an event that is not a keystroke, or a keystroke.
#[derive(Debug, PartialEq, Eq, Structural, Clone, Copy)]
pub enum PollOutcome {
    Timeout,
    NonKey,
    Key(Key),
}

/// The loop is done with a session in `status`: it terminates on completion
/// and on explicit cancel.
pub open spec fn loop_done(status: GameStatus) -> bool {
    status == GameStatus::Finished || status == GameStatus::Exiting
}

/// One iteration of the interaction loop, taken after the frame was drawn
/// and the input source was polled: a session that is already done is left
/// untouched, a keystroke is forwarded to the session, and anything else
/// changes nothing. Returns whether the loop must now terminate.
pub fn loop_step(state: &mut AppState, outcome: PollOutcome, now_ms: u64) -> (exit: bool)
    requires
        old(state)@.wf(),
        outcome matches PollOutcome::Key(Key::Char(_)) ==> old(state).mistakes < usize::MAX,
    ensures
        final(state)@.wf(),
        loop_done(old(state)@.status) ==> final(state)@ == old(state)@ && exit,
        !loop_done(old(state)@.status) ==> final(state)@ == (match outcome {
            PollOutcome::Key(key) => key_step(old(state)@, key, now_ms),
            _ => old(state)@,
        }),
        exit == loop_done(final(state)@.status),
{
    if state.status == GameStatus::Finished || state.status == GameStatus::Exiting {
        return true;
    }
    match outcome {
        PollOutcome::Key(key) => {
            state.handle_keypress(key, now_ms);
        }
        PollOutcome::Timeout => {}
        PollOutcome::NonKey => {}
    }
    state.status == GameStatus::Finished || state.status == GameStatus::Exiting
}

/// The three sub-steps of releasing the terminal, in the order they are
/// always attempted: leave raw mode, leave the alternate screen, show the
/// cursor again.
#[derive(Debug, PartialEq, Eq, Structural, Clone, Copy)]
pub enum CleanupStep {
    DisableRawMode,
    LeaveAlternateScreen,
    ShowCursor,
}

/// Which terminal-cleanup failure to surface once every sub-step has been
/// attempted: the first failed sub-step in attempt order, or `None` when all
/// three succeeded.
pub fn first_failed_step(raw_mode_ok: bool, screen_ok: bool, cursor_ok: bool) -> (failed: Option<
    CleanupStep,
>)
    ensures
        failed == (if !raw_mode_ok {
            Some(CleanupStep::DisableRawMode)
        } else if !screen_ok {
            Some(CleanupStep::LeaveAlternateScreen)
        } else if !cursor_ok {
            Some(CleanupStep::ShowCursor)
        } else {
            None::<CleanupStep>
        }),
{
    if !raw_mode_ok {
        Some(CleanupStep::DisableRawMode)
    } else if !screen_ok {
        Some(CleanupStep::LeaveAlternateScreen)
    } else if !cursor_ok {
        Some(CleanupStep::ShowCursor)
    } else {
        None
    }
}

} // verus!
