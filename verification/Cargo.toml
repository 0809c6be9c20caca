[package]
name = "consensource-cli"
version = "0.1.0"
edition = "2021"
publish = false

[dependencies]
chrono = "=0.4.45"
clap = "=2.34.0"
futures = "=0.1.31"
hyper = "=0.11.27"
protobuf = "=2.28.0"
reqwest = { version = "=0.9.24", default-features = false }
rpassword = "=7.5.4"
rust-crypto = "=0.2.36"
sawtooth-sdk = "=0.5.2"
serde = { version = "=1.0.229", features = ["derive"] }
serde_derive = "=1.0.229"
serde_json = "=1.0.154"
serde_yaml = "=0.8.26"
tokio-core = "=0.1.18"
users = "=0.11.0"
uuid = { version = "=0.7.4", features = ["v4"] }
yaml-rust = "=0.4.5"

[dev-dependencies]
rand = "=0.8.8"
secp256k1 = "=0.21.3"
sha2 = "=0.10.9"
