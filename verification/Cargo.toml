[package]
name = "creep_movement"
version = "0.1.0"
edition = "2021"
publish = false

[dependencies]
screeps-game-api = "=0.23.5"
serde = { version = "=1.0.229", features = ["derive"] }
serde_json = "*"
