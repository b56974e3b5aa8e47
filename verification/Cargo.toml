[package]
name = "socket_bridge"
version = "0.1.0"
edition = "2021"
publish = false

[dependencies]
flume = "0.11"
tokio = { version = "1", features = ["rt-multi-thread", "net", "macros", "io-util", "time"] }
