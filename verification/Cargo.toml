[package]
name = "bouncer"
version = "0.1.0"
edition = "2021"
publish = false

[dependencies]
toml = { version = "=1.1.8", features = ["preserve_order"] }
directories = "=6.0.0"
evdev = "=0.13.2"
libc = "=0.2.191"
windows = { version = "=0.62.2", features = ["Win32_Foundation", "Win32_Security", "Win32_System_LibraryLoader", "Win32_System_Threading", "Win32_UI_WindowsAndMessaging"] }
winreg = "=0.56.0"
egui = "=0.37.0"
eframe = { version = "=0.37.0", default-features = false, features = ["default_fonts", "glow"] }
tray-icon = "=0.26.1"
