//! The pure models behind the tray icon and the settings window: what they show and
//! what a click does. The windowing itself lives with the application.

pub mod hotkey;
pub mod rebind;
pub mod session;
pub mod settings;
pub mod tray;
