//! Human-readable panic-hotkey strings and chords, as the settings window uses them:
//! [`display`] renders a captured chord as `Ctrl+Alt+Shift+F12`, [`parse`] turns a
//! config string back into a validated [`PanicChord`](crate::pure_core::PanicChord).

pub use crate::pure_core::hotkey::{display, parse, HotkeyError};
