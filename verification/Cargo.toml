[package]
name = "coincache"
version = "0.1.0"
edition = "2021"
publish = false

[dependencies]
lru = { version = "=0.18.5", default-features = false }
chrono = "=0.4.45"
axum = "*"
tokio = { version = "*", features = ["macros", "rt-multi-thread", "sync", "net"] }
reqwest = { version = "*", default-features = false, features = ["json"] }
serde = { version = "*", features = ["derive"] }
serde_json = "*"
log = "*"
env_logger = "*"
