[package]
name = "survival_core"
version = "0.1.0"
edition = "2021"
publish = false

[dependencies]
spacetimedb = "1"
rand = "0.8"
noise = "0.9"
serde = { version = "1", features = ["derive"] }
log = "0.4"
