//! Bouncer — a headless input debouncer, as a verified library.
//!
//! The library holds every decision the application makes: the per-key,
//! release-anchored chatter rule, panic-chord detection, mode gating, the
//! hotkey grammar, defensive settings load/save, the diagnostic statistics,
//! the hook-eviction watchdog and the tray/settings presentation models. The
//! operating-system shell (hooks, device grabs, the tray and the window) lives
//! outside the library and talks to it through plain values.

pub mod pure_core;
pub mod config;
pub mod toml_table;
pub mod messages;
pub mod platform;
pub mod stats;
pub mod ui;
