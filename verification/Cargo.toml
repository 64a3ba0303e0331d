[package]
name = "consensus_observer"
version = "0.1.0"
edition = "2021"
publish = false

[dependencies]
tokio = { version = "*", features = ["sync", "macros", "time", "rt"] }
futures = "*"
tokio-stream = "*"
