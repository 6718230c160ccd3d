[package]
name = "async-chat"
version = "0.1.0"
edition = "2021"
publish = false

[dependencies]
async-broadcast = "=0.7.2"
async-lock = "=3.4.2"
async-net = "=2.0.0"
async-std = "=1.13.2"
eyre = "=0.6.14"
futures-lite = "=2.6.1"
num-traits = "=0.2.19"
parking = "=2.2.1"
serde = { version = "=1.0.229", features = ["derive"] }
serde_json = "=1.0.154"
tracing = "0.1"
tracing-subscriber = "0.3"
waker-fn = "=1.2.0"
