[package]
name = "fluvio_gateway"
version = "0.1.0"
edition = "2021"
publish = false

[dependencies]
anyhow = "*"
console = "*"
figlet-rs = "*"
fluvio = "*"
futures-core = "*"
tokio = { version = "*", features = ["rt-multi-thread", "macros"] }
tokio-stream = "*"
tonic = "*"
