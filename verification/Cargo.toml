[package]
name = "ownterm"
version = "0.1.0"
edition = "2021"
publish = false

[dependencies]
uuid = { version = "1", features = ["v4"] }
serde = { version = "1", features = ["derive"] }
serde_json = "1"
time = { version = "0.3", features = ["formatting"] }
rusqlite = { version = "*", features = ["bundled"] }
portable-pty = "0.9"
russh = "*"
tokio = { version = "1", features = ["rt", "time", "sync", "macros"] }
keyring = { version = "3", features = ["windows-native"] }
