[package]
name = "proxy_balance"
version = "0.1.0"
edition = "2021"
publish = false

[dependencies]
tokio-timer = "0.2"
rand = "0.8"
