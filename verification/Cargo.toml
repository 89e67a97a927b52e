[package]
name = "autorenewal"
version = "0.1.0"
edition = "2021"
publish = false

[dependencies]
anyhow = "1"
bigdecimal = "0.4"
bson = "2"
chrono = "0.4"
futures = "0.3"
lazy_static = "1"
mongodb = "2"
num-integer = "0.1"
reqwest = "0.11"
serde = { version = "1", features = ["derive"] }
serde_json = "1"
serenity = { version = "0.11", default-features = false, features = ["http", "model", "rustls_backend"] }
starknet = "0.10"
thiserror = "1"
tokio = { version = "1", features = ["full"] }
tokio-stream = "0.1"
toml = "0.8"
url = "2"
warp = "0.3"
