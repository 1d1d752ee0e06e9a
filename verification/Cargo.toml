[package]
name = "prime_chess"
version = "0.1.0"
edition = "2021"
publish = false

[dependencies]
rand = "0.8"
axum = { version = "0.7", features = ["ws"] }
tokio = { version = "1", features = ["rt-multi-thread", "macros", "net"] }
tower-http = { version = "0.5", features = ["cors"] }
