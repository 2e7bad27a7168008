[package]
name = "agend-daemon"
version = "0.1.0"
edition = "2021"
publish = false

[dependencies]
anyhow = "1"
chrono = { version = "0.4", features = ["clock"] }
crossbeam-channel = "0.5"
crossterm = "0.28"
libc = "0.2"
parking_lot = "0.12"
portable-pty = "0.8"
regex = "1"
reqwest = { version = "0.12", default-features = false, features = ["rustls-tls"] }
serde = { version = "1", features = ["derive"] }
serde_json = "1"
tokio = { version = "1", features = ["rt", "time", "net"] }
tracing = "0.1"
