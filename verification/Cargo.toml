[package]
name = "robot_scheduler"
version = "0.1.0"
edition = "2021"
publish = false

[dependencies]
lazy_static = "1"
serde = { version = "1", features = ["derive"] }
serde_json = "1"
tokio = { version = "1", features = ["rt", "rt-multi-thread", "sync", "time"] }
