[package]
name = "keysight"
version = "0.1.0"
edition = "2021"
publish = false

[dependencies]
subtle = "2"
rand = "0.9"
serde = { version = "1", features = ["derive"] }
serde_json = "1"
serde_yaml = "0.9"
toml = "0.8"
chrono = "0.4"
thiserror = "2"
rusqlite = { version = "0.32", features = ["bundled"] }
