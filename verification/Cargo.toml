[package]
name = "openchamber"
version = "0.1.0"
edition = "2021"
publish = false

[dependencies]
dirs = "=5.0.1"
reqwest = { version = "0.12", default-features = false, features = ["json", "rustls-tls"] }
serde = { version = "=1.0.229", features = ["derive"] }
serde_json = "=1.0.154"
tokio = { version = "=1.54.1", features = ["fs", "io-std", "io-util", "macros", "process", "rt-multi-thread", "sync"] }
url = "=2.5.8"
urlencoding = "=2.1.3"
