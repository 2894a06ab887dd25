[package]
name = "novel_fetcher"
version = "0.1.0"
edition = "2021"
publish = false

[dependencies]
anyhow = "1"
async-trait = "0.1"
chrono = "0.4"
clap = { version = "4", features = ["cargo"] }
env_logger = "0.10"
kuchiki = "0.8"
log = "0.4"
reqwest = { version = "0.11", default-features = false }
tokio = { version = "1", features = ["full"] }
