[package]
name = "urlnao"
version = "0.1.0"
edition = "2021"
publish = false

[dependencies]
sled = "0.34"
rand = "0.8"
sha2 = "0.10"
uuid = { version = "0.8", features = ["v4"] }
tokio = { version = "1", features = ["rt-multi-thread", "macros", "net", "io-util", "fs", "sync"] }
tokio-stream = { version = "0.1", features = ["net"] }
futures = "0.3"
signal-hook = "0.3"
clap = "2"
