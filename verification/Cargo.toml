[package]
name = "proton_game_saves"
version = "0.1.0"
edition = "2021"
publish = false

[dependencies]
serde = { version = "*", features = ["derive"] }
serde_json = "*"
serde_yaml = "*"
dirs = "*"
reqwest = { version = "*", default-features = false, features = ["blocking"] }
