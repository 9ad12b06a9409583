[package]
name = "meetily"
version = "0.1.0"
edition = "2021"
publish = false

[dependencies]
anyhow = "1"
chrono = "0.4"
clap = { version = "4", features = ["derive"] }
crossterm = "0.29"
dirs = "6"
env_logger = { version = "0.11", default-features = false }
libpulse-binding = "2"
libpulse-simple-binding = "2"
log = "0.4"
realfft = "3"
serde = { version = "1", features = ["derive"] }
serde_json = { version = "1", features = ["raw_value"] }
sqlx = { version = "0.8", default-features = false, features = ["runtime-tokio", "sqlite", "macros"] }
terminal_size = "0.4"
thiserror = "2"
tokio = { version = "1", features = ["rt-multi-thread", "macros", "time", "sync", "signal"] }
tokio-util = "0.7"
uuid = { version = "1", features = ["v4"] }

[dev-dependencies]
tempfile = "3"
