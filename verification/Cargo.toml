[package]
name = "clash_ws"
version = "0.1.0"
edition = "2021"
publish = false

[dependencies]
async-trait = "0.1"
bytes = "1"
futures = "0.3"
http = "1"
rand = "0.9"
tokio = { version = "1", features = ["io-util"] }
tokio-tungstenite = "*"
