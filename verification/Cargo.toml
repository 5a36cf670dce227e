[package]
name = "shiki"
version = "0.1.0"
edition = "2021"
publish = false

[dependencies]
rand = "0.8"
uuid = { version = "1", features = ["v4"] }
serde_json = "1"
chrono = { version = "0.4", default-features = false, features = ["clock"] }
