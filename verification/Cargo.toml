[package]
name = "layered_io"
version = "0.1.0"
edition = "2021"
publish = false

[dependencies]
duplex = "*"
futures-io = "*"
tokio = { version = "*", features = ["io-util"] }
