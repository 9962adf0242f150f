[package]
name = "pixtimize"
version = "0.1.2"
edition = "2021"
publish = false

[dependencies]
sha2 = "=0.10.9"
anyhow = "=1.0.104"
thiserror = "=2.0.21"
serde = { version = "=1.0.229", features = ["derive"] }
serde_json = { version = "=1.0.154", features = ["float_roundtrip"] }
tokio = { version = "=1.54.1", features = ["macros", "rt-multi-thread", "net", "time", "sync"] }
axum = "=0.8.9"
bytes = "=1.12.1"
httpdate = "=1.0.3"
aws-sdk-s3 = "=1.157.0"
redis = { version = "=1.8.1", features = ["tokio-comp", "connection-manager"] }
tokio-cron-scheduler = "=0.15.1"
tracing = "=0.1.44"
tracing-subscriber = { version = "=0.3.23", features = ["env-filter", "fmt"] }
libvips-rs = "=8.18.0"
