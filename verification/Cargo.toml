[package]
name = "liquidation_monitor"
version = "0.1.0"
edition = "2021"
publish = false

[dependencies]
anyhow = "1"
bigdecimal = "0.4"
starknet = "*"
tokio = { version = "1", features = ["macros", "rt", "sync", "time"] }
tracing = "0.1"
