[package]
name = "lihee"
version = "0.1.0"
edition = "2021"
publish = false

[dependencies]
tokio = { version = "*", features = ["rt-multi-thread", "macros", "sync", "net", "io-util", "time"] }
tokio-stream = "*"
async-trait = "*"
serde = { version = "*", features = ["derive"] }
serde_json = "*"
