[package]
name = "game_server"
version = "0.1.0"
edition = "2021"
publish = false

[dependencies]
serde_json = { version = "*", features = ["preserve_order"] }
uuid = { version = "*", features = ["v4"] }
chrono = "*"
