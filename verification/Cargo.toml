[package]
name = "jsonrpc"
version = "0.1.0"
edition = "2021"
publish = false

[dependencies]
serde = { version = "1", features = ["derive"] }
serde_json = "1"
hyper = { version = "0.14", features = ["client", "http1", "tcp", "runtime"] }
hyper-tls = "0.5"
futures-util = "0.3"
