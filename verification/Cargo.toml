[package]
name = "loa_logs"
version = "0.1.0"
edition = "2021"
publish = false

[dependencies]
hashbrown = "=0.17.1"
moka = { version = "=0.12.16", features = ["sync"] }
chrono = "=0.4.45"
sha2 = "=0.11.1"
serde = { version = "=1.0.229", features = ["derive"] }
serde_json = "=1.0.154"
uuid = { version = "=1.29.0", features = ["v4"] }
log = "=0.4.35"
anyhow = "=1.0.104"
rsntp = "=4.1.2"
tokio = { version = "1", features = ["rt-multi-thread", "sync", "time", "macros", "net"] }
axum = "*"
reqwest = { version = "*", default-features = false, features = ["json"] }
flexi_logger = "*"
