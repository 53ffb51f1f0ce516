[package]
name = "zerospider"
version = "0.1.0"
edition = "2021"
publish = false

[dependencies]
ai-lib-rust = "*"
anyhow = "1"
async-stream = "0.3"
async-trait = "0.1"
clap = { version = "4", features = ["derive"] }
futures-util = "0.3"
serde_json = "1"
tokio = { version = "1", features = ["rt", "rt-multi-thread", "time", "sync", "process", "macros"] }
tracing = "0.1"
