[package]
name = "kaiheila"
version = "0.1.0"
edition = "2021"
publish = false

[dependencies]
serde_json = "=1.0.151"
serde = { version = "=1.0.229", features = ["derive"] }
serde_with = "=3.24.0"
reqwest = { version = "=0.13.5", default-features = false, features = ["gzip", "deflate", "query"] }
async-stream = "=0.3.6"
futures-util = "=0.3.34"
