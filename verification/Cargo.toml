[package]
name = "clocko"
version = "0.1.0"
edition = "2021"
publish = false

[dependencies]
chrono = { version = "0.4", features = ["serde"] }
dialoguer = { version = "0.11", features = ["fuzzy-select"] }
dirs = "5"
serde = { version = "1", features = ["derive"] }
serde_json = "1"
