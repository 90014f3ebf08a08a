[package]
name = "skit"
version = "0.1.0"
edition = "2021"
publish = false

[dependencies]
glob = "=0.3.4"
reqwest = { version = "=0.13.5", default-features = false }
serde = { version = "=1.0.229", features = ["derive"] }
serde_json = "=1.0.154"
tokio = { version = "=1.54.1", features = ["net", "sync", "fs", "rt", "macros", "time"] }
anyhow = "=1.0.104"
bytes = "=1.12.1"
multer = "=3.1.0"
mime_guess = "=2.0.5"
uuid = { version = "=1.29.0", features = ["v4"] }
serde-saphyr = "=2.0.0"
