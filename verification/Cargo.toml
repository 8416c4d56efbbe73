[package]
name = "budgetchat"
version = "0.1.0"
edition = "2021"
publish = false

[dependencies]
tokio = { version = "*", features = ["full"] }
tokio-util = { version = "*", features = ["codec"] }
futures = "*"
itertools = "*"
bytes = "*"
serde = { version = "*", features = ["derive"] }
serde_json = "*"
num-bigint = "*"
num-iter = "*"
num-traits = "*"
