[package]
name = "leadscraper"
version = "0.1.0"
edition = "2021"
publish = false

[dependencies]
async-trait = "0.1"
base64 = "=0.22.1"
chrono = { version = "=0.4.45", features = ["serde"] }
clap = { version = "4", features = ["derive"] }
regex = "=1.13.1"
reqwest = { version = "0.12", default-features = false, features = ["json"] }
scraper = { version = "=0.20.0", features = ["deterministic"] }
serde = { version = "1", features = ["derive"] }
serde_json = "1"
serde_yaml = "0.9"
tokio = { version = "1", features = ["full"] }
tracing = "0.1"
tracing-subscriber = "0.3"
url = "=2.5.8"
