[package]
name = "unixsock_stream"
version = "0.1.0"
edition = "2021"
publish = false

[dependencies]
tokio = { version = "=1.54.1", features = ["io-util", "macros", "net", "rt", "rt-multi-thread", "sync", "time"] }
tokio-util = { version = "=0.7.20", features = ["rt"] }
tracing = "=0.1.44"
uuid = { version = "=1.29.0", features = ["v4"] }
