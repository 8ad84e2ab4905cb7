[package]
name = "mikan"
version = "0.1.0"
edition = "2021"
publish = false

[dependencies]
anyhow = "=1.0.104"
clap = { version = "=4.6.7", features = ["derive"] }
inquire = "=0.9.4"
quick-xml = "=0.41.0"
reqwest = { version = "=0.12.28", default-features = false, features = ["blocking", "multipart", "rustls-tls", "macos-system-configuration"] }
scraper = "=0.29.0"
serde = { version = "=1.0.229", features = ["derive"] }
toml = "=1.1.8"
