[package]
name = "guloader"
version = "0.1.0"
edition = "2021"
publish = false

[dependencies]
scraper = "0.20"
regex = "1"
uuid = { version = "1", features = ["v4"] }
chrono = { version = "0.4", features = ["serde"] }
zip = { version = "0.6", default-features = false, features = ["deflate"] }
tokio = { version = "1", features = ["rt-multi-thread", "macros", "fs", "time"] }
reqwest = "0.12"
sqlx = { version = "0.7", default-features = false, features = ["runtime-tokio", "sqlite", "chrono"] }
clap = { version = "4", features = ["derive"] }
serde = { version = "1", features = ["derive"] }
serde_json = "1"
toml = "0.8"
tracing = "0.1"
tracing-subscriber = { version = "0.3", features = ["env-filter"] }
thiserror = "1"
futures = "0.3"
indicatif = "0.17"
async-trait = "0.1"
url = "2"
