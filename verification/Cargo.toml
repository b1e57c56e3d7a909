[package]
name = "maghemite"
version = "0.1.0"
edition = "2021"
publish = false

[dependencies]
chrono = { version = "0.4", default-features = false, features = ["std"] }
lazy_static = "1"
neon = "1"
rust_decimal = "1"
serde = { version = "1", features = ["derive"] }
serde_json = "1"
