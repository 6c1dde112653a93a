[package]
name = "oxiclaw"
version = "0.1.0"
edition = "2021"
publish = false

[dependencies]
anyhow = "=1.0.104"
axum = { version = "=0.7.9", default-features = false, features = ["http1", "json", "tokio"] }
chrono = { version = "=0.4.45", default-features = false, features = ["clock"] }
dotenvy = "=0.15.7"
env_logger = { version = "=0.11.11", default-features = false }
fastembed = { version = "=4.9.1", default-features = false, features = ["hf-hub", "ort-load-dynamic"] }
log = "=0.4.35"
reqwest = { version = "=0.12.28", default-features = false, features = ["json", "rustls-tls"] }
rusqlite = { version = "=0.32.1", features = ["bundled"] }
serde = { version = "=1.0.229", features = ["derive"] }
serde_json = "=1.0.154"
tantivy = { version = "=0.22.1", default-features = false, features = ["mmap"] }
tokio = { version = "=1.54.1", features = ["rt-multi-thread", "macros", "sync", "time", "net"] }
toml = "=0.8.23"
ureq = { version = "=2.12.1", features = ["json"] }
uuid = { version = "=1.29.0", features = ["v4"] }
