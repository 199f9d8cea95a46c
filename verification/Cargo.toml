[package]
name = "gossip_snapshot"
version = "0.1.0"
edition = "2021"
publish = false

[dependencies]
anyhow = "1"
lightning = "*"
tokio = { version = "1", features = ["time"] }
ureq = "2"
