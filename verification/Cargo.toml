[package]
name = "tongues_tts"
version = "0.1.0"
edition = "2021"
publish = false

[dependencies]
anyhow = "1"
burn = { version = "0.21", default-features = false, features = ["ndarray"] }
json5 = "0.4"
serde = { version = "1", features = ["derive"] }
serde_json = "1"
