[package]
name = "royals"
version = "0.1.0"
edition = "2021"
publish = false

[dependencies]
itertools = "0.10"
rand = "0.7"
serde = { version = "1", features = ["derive"] }
serde_json = "1"
