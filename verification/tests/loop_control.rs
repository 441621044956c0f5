use type_racer::control::first_failed_step;
use type_racer::control::loop_step;
use type_racer::control::CleanupStep;
use type_racer::control::PollOutcome;
use type_racer::game::AppState;
use type_racer::game::GameStatus;
use type_racer::game::Key;

#[test]
fn loop_continues_on_timeout_without_touching_the_session() {
    let mut s = AppState::new("cat".to_owned());
    let exit = loop_step(&mut s, PollOutcome::Timeout, 0);
    assert!(!exit);
    assert_eq!(s.status, GameStatus::NotStarted);
    assert_eq!(s.start_time, None);
}

#[test]
fn loop_ignores_non_key_events() {
    let mut s = AppState::new("cat".to_owned());
    s.handle_keypress(Key::Char('c'), 0);
    let exit = loop_step(&mut s, PollOutcome::NonKey, 1);
    assert!(!exit);
    assert_eq!(s.current_index, 1);
    assert_eq!(s.status, GameStatus::InProgress);
}

#[test]
fn loop_forwards_keystrokes() {
    let mut s = AppState::new("cat".to_owned());
    let exit = loop_step(&mut s, PollOutcome::Key(Key::Char('c')), 5);
    assert!(!exit);
    assert_eq!(s.current_index, 1);
    assert_eq!(s.status, GameStatus::InProgress);
    assert_eq!(s.start_time, Some(5));
}

#[test]
fn loop_exits_once_the_session_finishes() {
    let mut s = AppState::new("a".to_owned());
    let exit = loop_step(&mut s, PollOutcome::Key(Key::Char('a')), 0);
    assert!(exit);
    assert_eq!(s.status, GameStatus::Finished);
    // A later iteration still exits and leaves the session alone.
    let again = loop_step(&mut s, PollOutcome::Key(Key::Char('z')), 1);
    assert!(again);
    assert_eq!(s.current_index, 1);
    assert_eq!(s.mistakes, 0);
}

#[test]
fn loop_exits_on_cancel() {
    let mut s = AppState::new("cat".to_owned());
    let exit = loop_step(&mut s, PollOutcome::Key(Key::Esc), 9);
    assert!(exit);
    assert_eq!(s.status, GameStatus::Exiting);
    assert_eq!(s.end_time, Some(9));
}

#[test]
fn cleanup_surfaces_the_first_failure() {
    assert_eq!(first_failed_step(true, true, true), None);
    assert_eq!(
        first_failed_step(false, true, true),
        Some(CleanupStep::DisableRawMode)
    );
    assert_eq!(
        first_failed_step(false, false, false),
        Some(CleanupStep::DisableRawMode)
    );
    assert_eq!(
        first_failed_step(true, false, false),
        Some(CleanupStep::LeaveAlternateScreen)
    );
    assert_eq!(
        first_failed_step(true, true, false),
        Some(CleanupStep::ShowCursor)
    );
}
