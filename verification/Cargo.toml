[package]
name = "metasearch"
version = "0.1.0"
edition = "2021"
publish = false

[dependencies]
eyre = "0.6"
parking_lot = "0.12"
rand = "0.9"
regex = "1"
scraper = "*"
serde = { version = "1", features = ["derive"] }
serde_json = "1"
toml = "0.8"
tracing = "0.1"
unicode-normalization = "0.1"
url = "2"
urlencoding = "2"
wreq = "0.15"
wreq-util = "0.1"
