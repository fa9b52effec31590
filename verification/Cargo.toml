[package]
name = "shogi_engine"
version = "0.1.0"
edition = "2021"
publish = false

[dependencies]
lru = "0.12"
rand = "0.8"
serde = { version = "1", features = ["derive"] }
serde_json = "1"
