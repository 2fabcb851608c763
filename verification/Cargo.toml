[package]
name = "warmane_tui"
version = "0.1.0"
edition = "2021"
publish = false

[dependencies]
scraper = "*"
reqwest = { version = "*", default-features = false, features = ["rustls-tls"] }
tokio = { version = "*", features = ["full"] }
ratatui = "*"
crossterm = "*"
log = "*"
env_logger = "*"
