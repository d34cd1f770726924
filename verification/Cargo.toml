[package]
name = "my-codex"
version = "1.0.0"
edition = "2021"
publish = false

[dependencies]
serde = { version = "1", features = ["derive"] }
serde_json = "1"
sha2 = "0.10"
chrono = "0.4"
rusqlite = { version = "*", features = ["bundled"] }
tokio = { version = "1", features = ["process", "io-util", "time", "rt", "macros", "sync"] }
async-trait = "0.1"
dirs = "*"
walkdir = "2"
thiserror = "*"
