[package]
name = "streamcdn"
version = "0.1.0"
edition = "2021"
publish = false

[dependencies]
dashmap = "=6.2.1"
lru = { version = "=0.12.5", default-features = false }
sha2 = "=0.10.9"
hex = "=0.4.3"
uuid = { version = "=1.29.0", features = ["v4"] }
rand = "=0.8.8"
bytes = "=1.12.1"
serde = { version = "=1.0.229", features = ["derive"] }
serde_json = "=1.0.154"
toml = "=0.8.23"
thiserror = "=1.0.69"
tokio = { version = "=1.54.1", features = ["full"] }
axum = { version = "=0.7.9", features = ["ws"] }
tower-http = { version = "=0.5.2", features = ["cors", "compression-gzip", "trace"] }
tracing = "=0.1.44"
tracing-subscriber = "=0.3.23"
dotenvy = "=0.15.7"
futures = "=0.3.34"
num_cpus = "=1.17.0"
parking_lot = "=0.12.5"
redis = { version = "=0.25.5", features = ["tokio-comp"] }
reqwest = { version = "=0.12.28", default-features = false, features = ["json"] }
