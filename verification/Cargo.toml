[package]
name = "tinypng"
version = "0.1.0"
edition = "2021"
publish = false

[dependencies]
clap = "=4.6.7"
futures-util = "=0.3.34"
glob = "=0.3.4"
home-config = { version = "=0.7.0", features = ["toml"] }
reqwest = { version = "=0.13.5", default-features = false, features = ["stream"] }
serde = { version = "=1.0.229", features = ["derive"] }
tokio = { version = "=1.53.2", features = ["fs", "io-util", "macros", "rt-multi-thread"] }
