[package]
name = "outbound"
version = "0.1.0"
edition = "2021"
publish = false

[dependencies]
futures = "0.1"
tokio = { version = "0.1", default-features = false, features = ["sync"] }
tracing = "0.1"
