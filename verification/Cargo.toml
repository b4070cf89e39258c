[package]
name = "messenger"
version = "0.1.0"
edition = "2021"
publish = false

[dependencies]
tokio = { version = "1", default-features = false, features = ["sync"] }
rocket = "0.5"
branca = "*"
hex = "0.4"
rmp-serde = "*"
serde = { version = "1", features = ["derive"] }
