[package]
name = "processor"
version = "0.1.0"
edition = "2021"
publish = false

[dependencies]
uuid = "1"
serde_json = "1"
tokio = { version = "1", features = ["macros", "rt-multi-thread", "time"] }
tracing = "0.1"
tracing-subscriber = "0.3"
iggy = "*"
