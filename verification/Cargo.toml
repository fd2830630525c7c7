[package]
name = "snake_game"
version = "0.1.0"
edition = "2021"
publish = false

[dependencies]
eframe = { version = "=0.36.2", default-features = false, features = ["glow", "x11"] }
serde = { version = "=1.0.229", features = ["derive"] }
serde_json = "=1.0.151"
