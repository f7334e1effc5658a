[package]
name = "narya"
version = "0.1.0"
edition = "2021"
publish = false

[dependencies]
base64 = "0.22"
percent-encoding = "2"
serde = { version = "1", features = ["derive"] }
serde_json = "1"
serde_yaml = "0.9"
anyhow = "1"
dirs = "5"
chrono = { version = "0.4", default-features = false, features = ["clock", "std"] }
reqwest = { version = "0.12", default-features = false }
