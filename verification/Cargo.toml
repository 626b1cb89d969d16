[package]
name = "replicon_rules"
version = "0.1.0"
edition = "2021"
publish = false

[dependencies]
bevy = { version = "0.11", default-features = false }
bevy_renet = "0.0.9"
bincode = "1.3"
serde = { version = "1", features = ["derive"] }
