[package]
name = "hfss_file_manager"
version = "0.1.0"
edition = "2021"
publish = false

[dependencies]
anyhow = "=1.0.104"
chrono = { version = "=0.4.45", features = ["serde"] }
rusqlite = { version = "=0.32.1", features = ["bundled", "chrono"] }
serde = { version = "=1.0.229", features = ["derive"] }
serde_json = "=1.0.154"
sha2 = "=0.10.9"
tokio = { version = "=1.54.1", features = ["rt-multi-thread", "time", "macros"] }
uuid = { version = "=1.29.1", features = ["v4"] }
walkdir = "=2.5.0"
