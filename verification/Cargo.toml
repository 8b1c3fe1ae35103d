[package]
name = "peer_network"
version = "0.1.0"
edition = "2021"
publish = false

[dependencies]
bincode = { version = "2", default-features = false, features = ["std"] }
uuid = { version = "1", features = ["v4"] }
