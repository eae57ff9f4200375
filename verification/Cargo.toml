[package]
name = "texlab"
version = "0.1.0"
edition = "2021"
publish = false

[dependencies]
uuid = { version = "*", features = ["v4"] }
tokio = { version = "*", features = ["rt-multi-thread", "process", "io-util", "macros", "sync"] }
futures = "*"
