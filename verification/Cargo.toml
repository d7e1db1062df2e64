[package]
name = "virtctl"
version = "0.1.0"
edition = "2021"
publish = false

[dependencies]
quick-xml = "0.31"
roxmltree = "0.20"
serde_json = "1"
serde = { version = "1", features = ["derive"] }
ring = "0.17"
data-encoding = "2"
tokio-cron-scheduler = "*"
uuid = "1"
tokio = { version = "1", features = ["full"] }
futures = "0.3"
thiserror = "1"
chrono = "0.4"
