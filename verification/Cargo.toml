[package]
name = "emulator_hub"
version = "0.1.0"
edition = "2021"
publish = false

[dependencies]
sha2 = "=0.10.9"
serde = { version = "=1.0.229", features = ["derive"] }
serde_json = "=1.0.154"
ureq = { version = "=2.12.1", features = ["json"] }
rusqlite = { version = "=0.41.1", features = ["bundled"] }
image = { version = "=0.25.10", default-features = false, features = ["png", "jpeg"] }
rfd = { version = "=0.17.2", default-features = false, features = ["xdg-portal"] }
egui = "=0.37.0"
eframe = { version = "=0.37.0", default-features = false, features = ["glow", "default_fonts", "x11"] }
windows-sys = { version = "=0.59.0", features = ["Win32_Foundation", "Win32_Graphics_Gdi", "Win32_UI_Shell", "Win32_UI_WindowsAndMessaging", "Win32_UI_Input_KeyboardAndMouse"] }
