[package]
name = "bolt_driver"
version = "0.1.0"
edition = "2021"
publish = false

[dependencies]
rand = "=0.10.3"
bolt-client = { version = "=0.11.0", features = ["tokio-stream"] }
deadpool = "=0.13.1"
tokio = { version = "*", features = ["full"] }
tokio-util = { version = "*", features = ["compat"] }
futures = "*"
bytes = "*"
async-recursion = "*"
