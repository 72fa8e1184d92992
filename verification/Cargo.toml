[package]
name = "simledger"
version = "0.1.0"
edition = "2021"
publish = false

[dependencies]
csv-async = { version = "1", features = ["tokio", "with_serde"] }
serde = "1"
serde_derive = "1"
tokio = { version = "1", features = ["fs", "io-std", "io-util", "macros", "rt-multi-thread"] }
tokio-stream = "0.1"
