//! The pure core: all decision logic, with no OS calls, no clock, and no I/O.
//!
//! Timestamps arrive on the event (`InputEvent::timestamp_ms`), so the core is
//! deterministic and every decision is a function of its inputs.

pub mod debouncer;
pub mod engine;
pub mod event;
pub mod hotkey;
pub mod hotkey_round_trip;
pub mod mode;
pub mod panic;
pub mod verdict;

pub use debouncer::{Debouncer, Thresholds};
pub use event::{Device, EventKind, InputEvent, KeyCode, KeyId, MouseButton};
pub use mode::Mode;
pub use verdict::{Outcome, Verdict};
pub use panic::{ChordError, PanicChord, PanicDetector, PanicReaction};
pub use engine::Engine;
