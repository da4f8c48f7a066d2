[package]
name = "telegram_onedrive"
version = "0.1.0"
edition = "2021"
publish = false

[dependencies]
regex = "1"
mime_guess = "2"
percent-encoding = "2"
url = "2"
path-slash = "0.2"
chrono = "0.4"
anyhow = "1"
futures = "0.3"
tracing = "0.1"
tokio = { version = "1", features = ["rt", "macros", "time", "fs", "sync"] }
reqwest = { version = "0.12", default-features = false, features = ["rustls-tls"] }
grammers-client = "0.7"
