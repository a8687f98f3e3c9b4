[package]
name = "chaykin"
version = "0.1.0"
edition = "2021"
publish = false

[dependencies]
percent-encoding = "2"
rio_api = "0.8"
rio_turtle = "0.8"
anyhow = "1"
tokio = { version = "1", features = ["full"] }
tokio-rustls = { version = "0.26", default-features = false, features = ["ring", "tls12", "logging"] }
rcgen = "0.13"
reqwest = { version = "0.12", default-features = false, features = ["rustls-tls"] }
