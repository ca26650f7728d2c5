[package]
name = "coderouter_proxy"
version = "0.1.0"
edition = "2021"
publish = false

[dependencies]
serde = { version = "=1.0.229", features = ["derive"] }
serde_json = "=1.0.154"
serde_yaml = "=0.9.34"
url = "=2.5.8"
base64 = "=0.22.1"
fastrand = "=2.5.0"
dirs = "=5.0.1"
fs2 = "=0.4.3"
chrono = "=0.4.45"
uuid = { version = "=1.29.0", features = ["v4"] }
tokio = { version = "1", features = ["rt-multi-thread", "macros", "sync", "time", "net", "signal"] }
axum = "0.7"
reqwest = { version = "0.12", default-features = false, features = ["json", "stream", "rustls-tls"] }
rusqlite = { version = "0.31", features = ["bundled"] }
futures = "0.3"
async-stream = "0.3"
bytes = "1"
anyhow = "1"
secret-service = { version = "4", features = ["rt-tokio-crypto-rust"] }
