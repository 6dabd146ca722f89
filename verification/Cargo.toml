[package]
name = "ait_application"
version = "0.1.0"
edition = "2021"
publish = false

[dependencies]
serde = { version = "=1.0.229", features = ["derive"] }
serde_json = "=1.0.154"
sha2 = "=0.10.9"
url = "=2.5.8"
uuid = { version = "=1.29.0", features = ["v4"] }
