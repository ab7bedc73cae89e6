[package]
name = "herdr_pet"
version = "0.1.0"
edition = "2021"
publish = false

[dependencies]
sha2 = "0.10"
unicode-normalization = "0.1"
serde = { version = "1", features = ["derive"] }
serde_json = "1"
tokio = { version = "1", features = ["io-util", "net", "rt-multi-thread", "macros", "sync", "time", "process"] }
interprocess = { version = "2", features = ["tokio"] }
dirs = "6"
tempfile = "3"
tracing = "0.1"
