[package]
name = "dns_blocker"
version = "0.1.0"
edition = "2021"
publish = false

[dependencies]
chrono = { version = "=0.4.45", default-features = false, features = ["clock", "serde", "std"] }
env_logger = "=0.10.2"
serde = { version = "=1.0.229", features = ["derive"] }
tauri = { version = "2", default-features = false }
tokio = { version = "=1.54.1", features = ["macros", "net", "rt-multi-thread", "sync", "time"] }
trust-dns-proto = { version = "=0.23.2", default-features = false }
