[package]
name = "iw4x-launcher"
version = "0.1.0"
edition = "2021"
publish = false

[dependencies]
blake3 = "1"
clap = { version = "4", features = ["derive"] }
colored = "*"
crossterm = "*"
futures-util = "0.3"
indicatif = "*"
log = "0.4"
rand = "0.9"
reqwest = { version = "*", default-features = false, features = ["rustls-tls", "stream"] }
semver = "1"
serde = { version = "1", features = ["derive"] }
serde_json = "1"
tokio = { version = "1", features = ["rt-multi-thread", "macros", "time"] }
zip = { version = "*", default-features = false, features = ["deflate"] }
