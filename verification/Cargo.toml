[package]
name = "downloader"
version = "0.1.0"
edition = "2021"
publish = false

[dependencies]
reqwest = { version = "0.11", default-features = false, features = ["blocking", "rustls-tls"] }
env_proxy = "0.4"
