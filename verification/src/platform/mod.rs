//! Decisions the OS shells make around the engine: the hook-eviction watchdog, the
//! mapping of native key codes to [`KeyCode`](crate::pure_core::KeyCode)s, and
//! the per-event and per-command glue every backend shares.

pub mod evdev_keycode;
pub mod hook;
pub mod watchdog;
pub mod windows_input;
