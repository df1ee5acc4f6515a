[package]
name = "photo_backup"
version = "0.1.0"
edition = "2021"
publish = false

[dependencies]
base64 = "0.22"
serde = { version = "1", features = ["derive"] }
serde_json = "1"
rusqlite = { version = "0.32", features = ["bundled"] }
reqwest = "0.12"
tokio = { version = "1", features = ["fs", "time", "rt"] }
