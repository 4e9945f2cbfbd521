[package]
name = "sam-trust"
version = "0.1.0"
edition = "2021"
publish = false

[dependencies]
serde = { version = "=1.0.229", features = ["derive"] }
serde_json = "=1.0.154"
thiserror = "=1.0.69"
chrono = { version = "=0.4.45", features = ["serde"] }
rusqlite = { version = "=0.31.0", features = ["bundled"] }
bincode = "=1.3.3"
