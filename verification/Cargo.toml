[package]
name = "monitor_manager"
version = "0.1.0"
edition = "2021"
publish = false

[dependencies]
serde = { version = "*", features = ["derive"] }
serde_json = "*"
sysinfo = "*"
windows = { version = "*", features = ["Win32_Graphics_Gdi", "Win32_Foundation"] }
