[package]
name = "butter-scroll"
version = "0.1.0"
edition = "2021"
publish = false

[dependencies]
urlencoding = "2"
crossbeam-channel = "0.5"
log = "0.4"
serde = { version = "1", features = ["derive"] }
serde_json = "1"
toml = "0.8"
windows-sys = { version = "0.59", features = ["Win32_Foundation", "Win32_UI_WindowsAndMessaging", "Win32_System_LibraryLoader", "Win32_System_Threading", "Win32_System_Registry", "Win32_UI_Input_KeyboardAndMouse", "Win32_UI_Shell", "Win32_Graphics_Gdi", "Win32_UI_Controls"] }
