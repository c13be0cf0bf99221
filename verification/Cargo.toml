[package]
name = "radiacode"
version = "0.1.0"
edition = "2021"
publish = false

[dependencies]
btleplug = "*"
serde = { version = "1", features = ["derive"] }
serde_json = "1"
thiserror = "*"
uuid = "1"
tokio = { version = "1", features = ["process", "rt", "macros", "time", "sync"] }
tracing = "0.1"
tracing-subscriber = { version = "0.3", features = ["env-filter"] }
