[package]
name = "learn-libp2p"
version = "0.1.0"
edition = "2021"
publish = false

[dependencies]
libp2p = { version = "*", default-features = false, features = ["tcp", "tokio", "noise", "yamux", "floodsub", "ping", "macros", "ed25519"] }
tokio = { version = "1", features = ["full"] }
tokio-util = { version = "*", features = ["codec"] }
futures = "0.3"
env_logger = "*"
