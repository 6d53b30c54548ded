[package]
name = "cromptch"
version = "0.1.0"
edition = "2021"
publish = false

[dependencies]
rust-argon2 = "2"
base64 = "0.22"
rand = "0.8"
uuid = { version = "1", features = ["v4"] }
axum = "0.6"
tokio = { version = "1", features = ["rt-multi-thread", "macros"] }
serde = { version = "1", features = ["derive"] }
