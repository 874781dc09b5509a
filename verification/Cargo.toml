[package]
name = "dice_roll"
version = "0.1.0"
edition = "2021"
publish = false

[dependencies]
rand = "0.9"
serde = { version = "1", features = ["derive"] }
serde_json = "1"
clap = "4"
axum = "0.8"
tokio = { version = "1", features = ["full"] }
