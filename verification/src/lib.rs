//! A terminal typing-speed trainer, built around a verified typing-session
//! state machine.
//!
//! The session ingests keystrokes, tracks progress against a target text,
//! records mistakes and timestamps, and derives words-per-minute and accuracy
//! figures. The interaction-loop decisions (when to redraw, when to exit,
//! which terminal-cleanup failure to surface) are verified here as well; the
//! terminal I/O itself lives outside the library.

pub mod control;
pub mod game;

pub use control::CleanupStep;
pub use control::PollOutcome;
pub use game::AppState;
pub use game::GameStatus;
pub use game::Key;
