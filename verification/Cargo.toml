[package]
name = "arisa"
version = "0.1.0"
edition = "2021"
publish = false

[dependencies]
uuid = { version = "1", features = ["v4"] }
tokio = { version = "1", features = ["rt-multi-thread", "macros", "fs", "io-util", "sync", "time"] }
tokio-stream = { version = "0.1", features = ["sync"] }
tonic = "0.14"
tonic-reflection = "0.14"
