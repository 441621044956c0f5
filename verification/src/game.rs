//! The typing-session state machine.
//!
//! An [`AppState`] owns the target text, the characters typed so far, the
//! cursor position, the lifecycle status, the two timestamps and the mistake
//! counter. It is mutated only through [`AppState::handle_keypress`],
//! [`AppState::cancel`] and [`AppState::reset`]; every transition is described
//! exactly by the spec-level transition function [`key_step`] over the ghost
//! view [`SessionView`].
//!
//! Timestamps are plain milliseconds supplied by the caller, so the whole
//! machine is pure: the interaction loop reads its clock and passes the
//! current time into each transition.

use vstd::prelude::*;

verus! {

use vstd::arithmetic::div_mod::lemma_div_is_ordered;
use vstd::arithmetic::div_mod::lemma_fundamental_div_mod_converse;
use vstd::arithmetic::mul::lemma_mul_inequality;

/// Lifecycle of a typing session. Exactly one of these holds at any time.
#[derive(Debug, PartialEq, Eq, Structural, Clone, Copy)]
pub enum GameStatus {
    NotStarted,
    InProgress,
    Finished,
    Exiting,
}

/// The keystrokes the session distinguishes: a printable character,
/// delete-backward, the cancel signal, and everything else (ignored).
#[derive(Debug, PartialEq, Eq, Structural, Clone, Copy)]
pub enum Key {
    Char(char),
    Backspace,
    Esc,
    Other,
}

/// Mathematical model of a session: what [`AppState`] looks like in contracts.
#[verifier::ext_equal]
pub ghost struct SessionView {
    pub target: Seq<char>,
    pub typed: Seq<char>,
    pub cursor: nat,
    pub status: GameStatus,
    pub start_time: Option<u64>,
    pub end_time: Option<u64>,
    pub mistakes: nat,
}

/// The view of a freshly constructed (or freshly reset) session on `target`.
pub open spec fn init_view(target: Seq<char>) -> SessionView {
    SessionView {
        target: target,
        typed: Seq::empty(),
        cursor: 0,
        status: GameStatus::NotStarted,
        start_time: None,
        end_time: None,
        mistakes: 0,
    }
}

impl SessionView {
    /// Well-formedness: holds of every session reachable through the library's
    /// operations. The typed history always mirrors the cursor, the cursor
    /// stays within the target, and each status fixes which timestamps are
    /// set.
    pub open spec fn wf(self) -> bool {
        &&& self.typed.len() == self.cursor
        &&& self.cursor <= self.target.len()
        &&& self.status == GameStatus::NotStarted ==> {
            &&& self.start_time is None
            &&& self.end_time is None
            &&& self.cursor == 0
            &&& self.mistakes == 0
        }
        &&& self.status == GameStatus::InProgress ==> {
            &&& self.start_time is Some
            &&& self.end_time is None
        }
        &&& self.status == GameStatus::Finished ==> {
            &&& self.start_time is Some
            &&& self.end_time is Some
            &&& self.cursor == self.target.len()
            &&& self.target.len() > 0
        }
        &&& self.status == GameStatus::Exiting ==> self.end_time is Some
    }
}

/// One accepted printable character `c` at time `now_ms`, applied to a
/// session that is neither finished nor exiting.
///
/// A session that has not started yet starts now and records `now_ms` as its
/// start time. While the cursor is inside the target, `c` is appended to the
/// typed history, the cursor advances, and a mismatch against the expected
/// character counts one mistake; reaching the end of the target finishes the
/// session and records `now_ms` as its end time. A cursor already at the end
/// ignores the character.
pub open spec fn char_step(v: SessionView, c: char, now_ms: u64) -> SessionView {
    let started = if v.status == GameStatus::NotStarted {
        SessionView { status: GameStatus::InProgress, start_time: Some(now_ms), ..v }
    } else {
        v
    };
    if started.cursor < started.target.len() {
        let counted = if c == started.target[started.cursor as int] {
            started.mistakes
        } else {
            started.mistakes + 1
        };
        let advanced = SessionView {
            typed: started.typed.push(c),
            cursor: started.cursor + 1,
            mistakes: counted,
            ..started
        };
        if advanced.cursor == advanced.target.len() {
            SessionView { status: GameStatus::Finished, end_time: Some(now_ms), ..advanced }
        } else {
            advanced
        }
    } else {
        started
    }
}

/// One delete-backward: while in progress with a nonempty typed history, the
/// cursor moves back and the last typed character is dropped; the mistake
/// count keeps its value. Otherwise nothing changes.
pub open spec fn backspace_step(v: SessionView) -> SessionView {
    if v.status == GameStatus::InProgress && v.cursor > 0 {
        SessionView { typed: v.typed.drop_last(), cursor: (v.cursor - 1) as nat, ..v }
    } else {
        v
    }
}

/// The cancel signal: the session moves to `Exiting`, and `now_ms` becomes
/// the end time unless an end time was already recorded.
pub open spec fn cancel_step(v: SessionView, now_ms: u64) -> SessionView {
    SessionView {
        status: GameStatus::Exiting,
        end_time: if v.end_time is None {
            Some(now_ms)
        } else {
            v.end_time
        },
        ..v
    }
}

/// The full transition table of [`AppState::handle_keypress`]: a finished or
/// exiting session ignores every key; otherwise the key dispatches to
/// [`char_step`], [`backspace_step`] or [`cancel_step`], and unmapped keys
/// change nothing.
pub open spec fn key_step(v: SessionView, key: Key, now_ms: u64) -> SessionView {
    if v.status == GameStatus::Finished || v.status == GameStatus::Exiting {
        v
    } else {
        match key {
            Key::Char(c) => char_step(v, c, now_ms),
            Key::Backspace => backspace_step(v),
            Key::Esc => cancel_step(v, now_ms),
            Key::Other => v,
        }
    }
}

/// The typing-session state. Fields are public so that a renderer can take a
/// read-only snapshot; all mutation goes through the methods, whose contracts
/// are stated over the view.
#[derive(Debug)]
pub struct AppState {
    pub target_text: String,
    pub typed_chars: Vec<char>,
    pub current_index: usize,
    pub status: GameStatus,
    pub start_time: Option<u64>,
    pub end_time: Option<u64>,
    pub mistakes: usize,
}

impl View for AppState {
    type V = SessionView;

    open spec fn view(&self) -> SessionView {
        SessionView {
            target: self.target_text@,
            typed: self.typed_chars@,
            cursor: self.current_index as nat,
            status: self.status,
            start_time: self.start_time,
            end_time: self.end_time,
            mistakes: self.mistakes as nat,
        }
    }
}

impl AppState {
    /// A new session on `text_to_type`: not started, nothing typed, no
    /// mistakes, both timestamps unset.
    pub fn new(text_to_type: String) -> (s: AppState)
        ensures
            s@ == init_view(text_to_type@),
            s@.wf(),
    {
        let s = AppState {
            target_text: text_to_type,
            typed_chars: Vec::new(),
            current_index: 0,
            status: GameStatus::NotStarted,
            start_time: None,
            end_time: None,
            mistakes: 0,
        };
        proof {
            assert(s@ =~= init_view(s.target_text@));
        }
        s
    }

    /// The sole keystroke entry point: applies exactly one [`key_step`]
    /// transition at time `now_ms`.
    ///
    /// Beyond well-formedness of the session itself, the only precondition is
    /// the machine limit on the mistake counter: a counted mismatch must
    /// still fit in `usize`.
    pub fn handle_keypress(&mut self, key: Key, now_ms: u64)
        requires
            old(self)@.wf(),
            key is Char ==> old(self).mistakes < usize::MAX,
        ensures
            final(self)@ == key_step(old(self)@, key, now_ms),
            final(self)@.wf(),
    {
        proof {
            lemma_key_step_preserves_wf(self@, key, now_ms);
        }
        if self.status == GameStatus::Finished || self.status == GameStatus::Exiting {
            return;
        }
        match key {
            Key::Char(pressed_character) => {
                if self.status == GameStatus::NotStarted {
                    self.status = GameStatus::InProgress;
                    self.start_time = Some(now_ms);
                }
                let target_len: usize = self.target_text.as_str().unicode_len();
                if self.current_index < target_len {
                    let expected: char = self.target_text.as_str().get_char(self.current_index);
                    if pressed_character != expected {
                        self.mistakes = self.mistakes + 1;
                    }
                    self.typed_chars.push(pressed_character);
                    self.current_index = self.current_index + 1;
                    if self.current_index == target_len {
                        self.status = GameStatus::Finished;
                        self.end_time = Some(now_ms);
                    }
                }
                proof {
                    assert(self@ =~= char_step(old(self)@, pressed_character, now_ms));
                }
            }
            Key::Backspace => {
                if self.status == GameStatus::InProgress && self.current_index > 0 {
                    self.current_index = self.current_index - 1;
                    self.typed_chars.pop();
                }
                proof {
                    assert(self@ =~= backspace_step(old(self)@));
                }
            }
            Key::Esc => {
                self.cancel(now_ms);
            }
            Key::Other => {}
        }
    }

    /// Ends the session: status becomes `Exiting`, and `now_ms` is recorded
    /// as the end time unless one was already recorded.
    pub fn cancel(&mut self, now_ms: u64)
        ensures
            final(self)@ == cancel_step(old(self)@, now_ms),
            old(self)@.wf() ==> final(self)@.wf(),
    {
        self.status = GameStatus::Exiting;
        if self.end_time.is_none() {
            self.end_time = Some(now_ms);
        }
        proof {
            assert(self@ =~= cancel_step(old(self)@, now_ms));
        }
    }

    /// Words per minute over the recorded session times, exactly [`wpm_of`]:
    /// zero whenever a timestamp is missing, no time elapsed, or the target
    /// is empty.
    pub fn calculate_wpm(&self) -> (wpm: u32)
        ensures
            wpm == wpm_of(self@),
            self.start_time is None || self.end_time is None || self@.target.len() == 0
                ==> wpm == 0,
    {
        if let (Some(started), Some(ended)) = (self.start_time, self.end_time) {
            if started <= ended {
                let elapsed_ms: u64 = ended - started;
                let num_chars: usize = self.target_text.as_str().unicode_len();
                if elapsed_ms > 0 && num_chars > 0 {
                    proof {
                        lemma_mul_inequality(num_chars as int, u64::MAX as int, 12000);
                    }
                    let numerator: u128 = (num_chars as u128) * 12000 + (elapsed_ms as u128) / 2;
                    let rounded: u128 = numerator / (elapsed_ms as u128);
                    if rounded > u32::MAX as u128 {
                        return u32::MAX;
                    }
                    return rounded as u32;
                }
            }
        }
        0
    }

    /// Accuracy in hundredths of a percent, exactly [`accuracy_of`]: 10000
    /// (a perfect 100%) with nothing typed, and always within the scale.
    pub fn calculate_accuracy(&self) -> (accuracy: u32)
        ensures
            accuracy == accuracy_of(self@),
            accuracy <= 10000,
            self.current_index == 0 ==> accuracy == 10000,
    {
        proof {
            lemma_accuracy_bounded(self@);
        }
        if self.current_index == 0 {
            10000
        } else {
            let correct_chars: usize = if self.mistakes >= self.current_index {
                0
            } else {
                self.current_index - self.mistakes
            };
            let numerator: u128 = (correct_chars as u128) * 10000 + (self.current_index as u128)
                / 2;
            proof {
                lemma_mul_inequality(correct_chars as int, u64::MAX as int, 10000);
            }
            let rounded: u128 = numerator / (self.current_index as u128);
            rounded as u32
        }
    }

    /// Returns the session to its construction-time state; only the target
    /// text is preserved.
    pub fn reset(&mut self)
        ensures
            final(self)@ == init_view(old(self)@.target),
            final(self)@.wf(),
    {
        self.typed_chars.clear();
        self.current_index = 0;
        self.status = GameStatus::NotStarted;
        self.start_time = None;
        self.end_time = None;
        self.mistakes = 0;
        proof {
            assert(self@ =~= init_view(old(self)@.target));
        }
    }
}

/// Milliseconds elapsed between the recorded start and end of the session:
/// zero when either timestamp is missing, or when they are out of order
/// (timestamps come from the caller, so nothing forces them to be ordered).
pub open spec fn elapsed_ms_of(v: SessionView) -> nat {
    match (v.start_time, v.end_time) {
        (Some(started), Some(ended)) => if started <= ended {
            (ended - started) as nat
        } else {
            0
        },
        _ => 0,
    }
}

/// Words per minute, under the convention of five characters per word: the
/// word count `target.len() / 5` divided by the elapsed minutes
/// `elapsed_ms / 60000`, which is `target.len() * 12000 / elapsed_ms` as one
/// exact fraction. The fraction is rounded to the nearest integer (halves
/// round up) by adding half the divisor before dividing, and the result
/// saturates at `u32::MAX`. Zero when no time elapsed or the target is empty.
pub open spec fn wpm_of(v: SessionView) -> nat {
    let chars = v.target.len();
    let ms = elapsed_ms_of(v);
    if ms == 0 || chars == 0 {
        0
    } else {
        let rounded = (chars * 12000 + ms / 2) / ms;
        if rounded > u32::MAX {
            u32::MAX as nat
        } else {
            rounded
        }
    }
}

/// Accuracy in hundredths of a percent, from 0 (all typed characters were
/// mistakes) to 10000 (a perfect 100%). With nothing typed yet the session is
/// vacuously perfect. Otherwise the fraction of correctly typed characters,
/// `(cursor - mistakes) / cursor`, is clamped below at zero (the mistake
/// count can exceed the cursor after backspacing over counted mistakes),
/// scaled to hundredths of a percent and rounded to the nearest integer.
pub open spec fn accuracy_of(v: SessionView) -> nat {
    if v.cursor == 0 {
        10000
    } else {
        let correct = if v.mistakes >= v.cursor {
            0
        } else {
            (v.cursor - v.mistakes) as nat
        };
        (correct * 10000 + v.cursor / 2) / v.cursor
    }
}

/// The accuracy figure never leaves the scale: at most 10000, that is 100%.
pub proof fn lemma_accuracy_bounded(v: SessionView)
    ensures
        accuracy_of(v) <= 10000,
{
    if v.cursor > 0 {
        let correct = if v.mistakes >= v.cursor {
            0
        } else {
            (v.cursor - v.mistakes) as nat
        };
        lemma_mul_inequality(correct as int, v.cursor as int, 10000);
        lemma_div_is_ordered(
            (correct * 10000 + v.cursor / 2) as int,
            (v.cursor * 10000 + v.cursor / 2) as int,
            v.cursor as int,
        );
        lemma_fundamental_div_mod_converse(
            (v.cursor * 10000 + v.cursor / 2) as int,
            v.cursor as int,
            10000,
            (v.cursor / 2) as int,
        );
    }
}

/// Every keystroke preserves well-formedness of the session view.
pub proof fn lemma_key_step_preserves_wf(v: SessionView, key: Key, now_ms: u64)
    ensures
        v.wf() ==> key_step(v, key, now_ms).wf(),
{
}

/// A finished or exiting session is frozen: every keystroke, of any kind,
/// leaves every field unchanged.
pub proof fn lemma_finished_is_frozen(v: SessionView, key: Key, now_ms: u64)
    requires
        v.status == GameStatus::Finished || v.status == GameStatus::Exiting,
    ensures
        key_step(v, key, now_ms) == v,
{
}

/// The session that results from feeding a whole sequence of keystrokes, one
/// [`key_step`] at a time; `times[i]` is the clock reading at keystroke `i`.
pub open spec fn run(v: SessionView, keys: Seq<Key>, times: Seq<u64>) -> SessionView
    decreases keys.len(),
{
    if keys.len() == 0 {
        v
    } else {
        key_step(run(v, keys.drop_last(), times.drop_last()), keys.last(), times.last())
    }
}

/// The mistake count never decreases, over any sequence of keystrokes —
/// backspace removes typed characters but never a counted mistake.
pub proof fn lemma_mistakes_monotonic(v: SessionView, keys: Seq<Key>, times: Seq<u64>)
    ensures
        run(v, keys, times).mistakes >= v.mistakes,
    decreases keys.len(),
{
    if keys.len() > 0 {
        lemma_mistakes_monotonic(v, keys.drop_last(), times.drop_last());
    }
}

/// Every state reachable from a fresh session by keystrokes alone is
/// well-formed; in particular the typed history always has exactly
/// `cursor` characters and the cursor never leaves the target.
pub proof fn lemma_reachable_wf(target: Seq<char>, keys: Seq<Key>, times: Seq<u64>)
    ensures
        run(init_view(target), keys, times).wf(),
    decreases keys.len(),
{
    if keys.len() > 0 {
        lemma_reachable_wf(target, keys.drop_last(), times.drop_last());
        lemma_key_step_preserves_wf(
            run(init_view(target), keys.drop_last(), times.drop_last()),
            keys.last(),
            times.last(),
        );
    }
}

/// A strengthening of [`SessionView::wf`] that holds of every state
/// reachable by keystrokes from a fresh session: while the session is in
/// progress or exiting, a nonempty target has not been fully covered.
/// (Calling [`AppState::cancel`] directly on a finished session leaves this
/// stronger invariant but not [`SessionView::wf`].)
pub open spec fn reach_inv(v: SessionView) -> bool {
    &&& v.wf()
    &&& (v.status == GameStatus::InProgress || v.status == GameStatus::Exiting) ==> (v.cursor
        < v.target.len() || v.target.len() == 0)
}

/// Every keystroke preserves the reachable-state invariant.
pub proof fn lemma_key_step_preserves_reach_inv(v: SessionView, key: Key, now_ms: u64)
    ensures
        reach_inv(v) ==> reach_inv(key_step(v, key, now_ms)),
{
}

/// Every state reachable from a fresh session by keystrokes alone satisfies
/// the reachable-state invariant.
pub proof fn lemma_run_reach_inv(target: Seq<char>, keys: Seq<Key>, times: Seq<u64>)
    ensures
        reach_inv(run(init_view(target), keys, times)),
    decreases keys.len(),
{
    if keys.len() > 0 {
        lemma_run_reach_inv(target, keys.drop_last(), times.drop_last());
        lemma_key_step_preserves_reach_inv(
            run(init_view(target), keys.drop_last(), times.drop_last()),
            keys.last(),
            times.last(),
        );
    }
}

/// Over every reachable state: the session is finished exactly when a
/// nonempty target has been fully typed and both timestamps were recorded.
pub proof fn lemma_finished_characterization(target: Seq<char>, keys: Seq<Key>, times: Seq<u64>)
    ensures
        ({
            let v = run(init_view(target), keys, times);
            v.status == GameStatus::Finished <==> (v.cursor == v.target.len() && v.target.len() > 0
                && v.start_time is Some && v.end_time is Some)
        }),
{
    lemma_run_reach_inv(target, keys, times);
}

/// Holds when every keystroke in `keys` is a printable character.
pub open spec fn chars_only(keys: Seq<Key>) -> bool {
    forall|i: int| 0 <= i < keys.len() ==> keys[i] is Char
}

/// Completion, characterized over character keystrokes: feeding `n`
/// printable characters into a fresh session moves the cursor to
/// `min(n, target.len())`, and the session is finished exactly when the
/// target is nonempty and at least `target.len()` characters were fed — the
/// keystrokes beyond that point are ignored, so exactly `target.len()` of
/// them were accepted.
pub proof fn lemma_completion(target: Seq<char>, keys: Seq<Key>, times: Seq<u64>)
    requires
        chars_only(keys),
        keys.len() == times.len(),
    ensures
        run(init_view(target), keys, times).target == target,
        run(init_view(target), keys, times).cursor == if keys.len() <= target.len() {
            keys.len()
        } else {
            target.len()
        },
        run(init_view(target), keys, times).status == (if keys.len() == 0 {
            GameStatus::NotStarted
        } else if target.len() > 0 && keys.len() >= target.len() {
            GameStatus::Finished
        } else {
            GameStatus::InProgress
        }),
        run(init_view(target), keys, times).status == GameStatus::Finished <==> (target.len() > 0
            && keys.len() >= target.len()),
    decreases keys.len(),
{
    if keys.len() > 0 {
        assert(chars_only(keys.drop_last())) by {
            assert(forall|i: int|
                0 <= i < keys.len() - 1 ==> keys.drop_last()[i] == keys[i]);
        }
        lemma_completion(target, keys.drop_last(), times.drop_last());
        let prev = run(init_view(target), keys.drop_last(), times.drop_last());
        let now = times.last();
        assert(keys[keys.len() - 1] is Char);
        match keys.last() {
            Key::Char(c) => {
                if prev.status == GameStatus::Finished {
                    assert(key_step(prev, keys.last(), now) == prev);
                } else {
                    assert(key_step(prev, keys.last(), now) == char_step(prev, c, now));
                    if prev.cursor < prev.target.len() {
                        assert(char_step(prev, c, now).cursor == prev.cursor + 1);
                    } else {
                        assert(char_step(prev, c, now).cursor == prev.cursor);
                    }
                }
            }
            Key::Backspace => {
                assert(false);
            }
            Key::Esc => {
                assert(false);
            }
            Key::Other => {
                assert(false);
            }
        }
    }
}

} // verus!
