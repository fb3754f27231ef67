[package]
name = "theguardian_rss_bot"
version = "0.1.0"
edition = "2021"
publish = false

[dependencies]
anyhow = "1"
chrono = "0.4"
futures = "0.3"
html2text = "*"
rss = "2"
serde = { version = "1", features = ["derive"] }
serde_json = "1"
wasi = "*"
