[package]
name = "dprint-plugin-golangci"
version = "0.1.0"
edition = "2021"
publish = false

[dependencies]
anyhow = "=1.0.104"
dirs = "=7.0.0"
dprint-core = { version = "=0.75.0", features = ["process"] }
flate2 = "=1.1.10"
indexmap = "=2.14.2"
reqwest = { version = "=0.12.28", default-features = false, features = ["json", "rustls-tls"] }
serde = { version = "=1.0.229", features = ["derive"] }
serde_json = "=1.0.154"
tar = "=0.4.46"
tokio = { version = "=1.54.1", features = ["process", "fs", "rt", "macros", "io-util", "io-std"] }
