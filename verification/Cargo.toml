[package]
name = "snitch_store"
version = "0.1.0"
edition = "2021"
publish = false

[dependencies]
rust-argon2 = "*"
uuid = { version = "=1.27.0", features = ["v4"] }
serde = { version = "=1.0.229", features = ["derive"] }
serde_json = "=1.0.151"
