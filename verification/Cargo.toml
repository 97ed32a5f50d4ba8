[package]
name = "launchpad"
version = "0.1.0"
edition = "2021"
publish = false

[dependencies]
convert_case = "*"
futures = "*"
hostname = "*"
lapin = "*"
serde = { version = "*", features = ["derive"] }
serde_json = "*"
thiserror = "*"
tokio = { version = "*", features = ["full"] }
tracing = "*"
tracing-loki = "*"
tracing-subscriber = { version = "*", features = ["env-filter", "fmt"] }
