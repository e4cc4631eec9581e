[package]
name = "print_agent"
version = "0.1.0"
edition = "2021"
publish = false

[dependencies]
base64 = "=0.22.1"
log = "0.4"
serde = { version = "1", features = ["derive"] }
tauri = { version = "2", default-features = false, features = ["wry", "tray-icon"] }
tempfile = { version = "3", default-features = false }
