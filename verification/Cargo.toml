[package]
name = "reddit_markdown"
version = "0.1.0"
edition = "2021"
publish = false

[dependencies]
anyhow = "*"
chrono = "=0.4.45"
clap = { version = "*", features = ["derive"] }
csv = "*"
env_logger = "*"
html-escape = "=0.2.15"
indicatif = "*"
log = "*"
pulldown-cmark = { version = "=0.13.4", default-features = false, features = ["html"] }
rand = "*"
regex = "=1.13.1"
reqwest = { version = "*", default-features = false, features = ["blocking", "json", "rustls-tls"] }
serde = { version = "*", features = ["derive"] }
serde_json = "*"
