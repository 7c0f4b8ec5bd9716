[package]
name = "note_stack"
version = "0.1.0"
edition = "2021"
publish = false

[dependencies]
serde = { version = "1", features = ["derive"] }
serde_json = "1"
uuid = { version = "1", features = ["v4"] }
tokio = { version = "1", features = ["time"] }
tauri = { version = "2", default-features = false, features = ["wry", "tray-icon"] }
tauri-plugin-store = { version = "2", default-features = false }
