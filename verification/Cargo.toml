[package]
name = "transform_config"
version = "0.1.0"
edition = "2021"
publish = false

[dependencies]
serde = { version = "1", features = ["derive"] }
serde_json = "1"
serde_yaml = "0.9"
humantime = "2"
humantime-serde = "1"
anyhow = "1"
schemars = "0.8"
fluvio-smartmodule = "*"
