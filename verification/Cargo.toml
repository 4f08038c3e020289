[package]
name = "pv_monitoring"
version = "0.1.0"
edition = "2021"
publish = false

[dependencies]
anyhow = "1"
modbus = "1"
reqwest = { version = "0.12", default-features = false, features = ["blocking", "json", "rustls-tls"] }
serde = { version = "1", features = ["derive"] }
serde_json = "1"
rustls = { version = "0.23", default-features = false, features = ["ring", "std", "logging", "tls12"] }
rustls-pki-types = "1"
tungstenite = "0.26"
tracing-subscriber = "0.3"
