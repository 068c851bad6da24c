[package]
name = "wisp_defense"
version = "0.1.0"
edition = "2021"
publish = false

[dependencies]
nanorand = "0.7"
serde = { version = "1", features = ["derive"] }
serde_yaml = "0.9"
