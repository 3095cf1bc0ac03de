[package]
name = "ytdl_cron"
version = "0.1.0"
edition = "2021"
publish = false

[dependencies]
anyhow = "1"
basic-toml = "*"
reqwest = { version = "*", default-features = false, features = ["blocking"] }
serde = { version = "1", features = ["derive"] }
