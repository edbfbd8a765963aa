[package]
name = "opencode_ssh"
version = "0.1.0"
edition = "2021"
publish = false

[dependencies]
shell-words = "=1.1.1"
uuid = { version = "=1.29.0", features = ["v4"] }
tokio = { version = "=1.54.1", features = ["io-util", "net", "process", "rt", "sync", "time"] }
serde = { version = "=1.0.229", features = ["derive"] }
url = "=2.5.8"
tauri = { version = "=2.12.5", default-features = false, features = ["wry"] }
specta = { version = "=2.0.0-rc.22", features = ["derive"] }
