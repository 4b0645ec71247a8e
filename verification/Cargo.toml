[package]
name = "syncmaid"
version = "0.1.0"
edition = "2021"
publish = false

[dependencies]
anyhow = "=1.0.104"
chrono = "=0.4.45"
flume = "=0.12.0"
raw-window-handle = "=0.6.2"
rust-embed = { version = "=8.13.0", features = ["include-exclude"] }
serde_json = "=1.0.154"
tracing = "=0.1.44"
tracing-subscriber = "=0.3.23"
tray-icon = { version = "=0.26.1", default-features = false, features = ["ksni"] }
uuid = { version = "=1.29.0", features = ["v4"] }
windows-registry = "=0.100.0"
windows-sys = { version = "=0.61.2", features = ["Win32_Foundation", "Win32_Globalization", "Win32_System_Threading", "Win32_UI_Shell", "Win32_UI_WindowsAndMessaging"] }
