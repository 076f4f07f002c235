[package]
name = "gorillabot"
version = "0.1.0"
edition = "2021"
publish = false

[dependencies]
rusqlite = { version = "*", features = ["bundled"] }
chrono = "0.4"
serenity = "0.11"
a2s = "*"
tokio = { version = "1", features = ["rt-multi-thread", "macros", "time", "sync"] }
anyhow = "1"
log = "0.4"
pretty_env_logger = "*"
dotenv = "*"
