[package]
name = "gpn_tron"
version = "0.1.0"
edition = "2021"
publish = false

[dependencies]
thiserror = "2"
tokio = { version = "1", features = ["net", "io-util", "macros", "rt-multi-thread"] }
tokio-stream = "0.1"
tokio-util = { version = "0.7", features = ["codec"] }
