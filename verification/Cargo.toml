[package]
name = "hfd"
version = "0.1.0"
edition = "2021"
publish = false

[dependencies]
glob = "0.3"
regex = "1"
rand = "0.8"
shellexpand = "3"
flate2 = "1"
serde = { version = "1", features = ["derive"] }
serde_json = "1"
toml = "0.8"
dirs = "5"
reqwest = { version = "0.11", default-features = false, features = ["json", "stream", "rustls-tls"] }
tokio = { version = "1", features = ["rt-multi-thread", "macros", "sync", "fs", "time", "signal", "io-util"] }
futures = "0.3"
indicatif = "0.17"
ctrlc = "3"
clap = { version = "4", features = ["derive"] }
anyhow = "1"
