[package]
name = "cfwidget"
version = "0.1.0"
edition = "2021"
publish = false

[dependencies]
failure = "0.1"
reqwest = { version = "0.12", default-features = false, features = ["rustls-tls"] }
semver = "1"
serde_json = { version = "1", features = ["arbitrary_precision"] }
url = "2"
