[package]
name = "file_sync"
version = "0.1.0"
edition = "2021"
publish = false

[dependencies]
axum = "*"
blake3 = "1"
chrono = { version = "0.4", features = ["serde"] }
dotenvy = "0.15"
hex = "0.4"
memmap2 = "*"
notify = "*"
notify-debouncer-mini = "*"
regex = "1"
reqwest = { version = "0.12", default-features = false, features = ["json", "rustls-tls"] }
serde = { version = "1", features = ["derive"] }
serde_json = "1"
tokio = { version = "1", features = ["full"] }
walkdir = "2"
