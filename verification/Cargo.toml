[package]
name = "options-scanner"
version = "0.1.0"
edition = "2021"
publish = false

[dependencies]
anyhow = "=1.0.104"
async-trait = "=0.1.92"
chrono = { version = "=0.4.45", features = ["serde"] }
clap = { version = "=4.6.7", features = ["derive"] }
crossterm = "=0.28.1"
governor = "=0.6.3"
moka = { version = "=0.12.16", features = ["future"] }
ratatui = "=0.29.0"
reqwest = { version = "=0.12.28", default-features = false, features = ["json", "cookies", "rustls-tls"] }
rusqlite = { version = "=0.32.1", features = ["bundled"] }
serde = { version = "=1.0.229", features = ["derive"] }
serde_json = "=1.0.154"
statrs = "=0.17.1"
tokio = { version = "=1.54.1", features = ["full"] }
toml = "=0.8.23"
tracing-subscriber = "=0.3.23"
