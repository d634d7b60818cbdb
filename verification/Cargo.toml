[package]
name = "test_driver"
version = "0.1.0"
edition = "2021"
publish = false

[dependencies]
similar = { version = "*", features = ["bytes"] }
clap = { version = "*", features = ["derive"] }
colored = "*"
tokio = { version = "*", features = ["full"] }
futures = "*"
serde = { version = "*", features = ["derive"] }
toml = "*"
