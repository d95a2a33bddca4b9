[package]
name = "buddy"
version = "0.1.0"
edition = "2021"
publish = false

[dependencies]
anyhow = "1"
obws = "0.14"
reqwest = { version = "0.12", default-features = false, features = ["blocking", "json", "rustls-tls"] }
rusqlite = { version = "0.31", features = ["bundled"] }
serde = { version = "1", features = ["derive"] }
serde_json = "1"
sysinfo = "0.29"
tokio = { version = "1", features = ["rt", "net", "time"] }
