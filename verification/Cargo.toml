[package]
name = "projector"
version = "0.1.0"
edition = "2021"
publish = false

[dependencies]
eframe = { version = "0.20", default-features = false, features = ["glow", "default_fonts", "persistence"] }
serde = { version = "1", features = ["derive"] }
serde_json = "1"
tracing-subscriber = "0.3"
