[package]
name = "datagram_queue"
version = "0.1.0"
edition = "2021"
publish = false

[dependencies]
errno = "0.2"

[dev-dependencies]
bytes = "1"
tokio = { version = "1", features = ["io-util", "rt"] }
