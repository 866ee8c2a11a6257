[package]
name = "minifaucet"
version = "0.1.0"
edition = "2021"
publish = false

[dependencies]
bitcoin = "=0.29.2"
bitcoincore-rpc = "=0.16.0"
http-body-util = "0.1"
hyper = { version = "1", features = ["http1", "server"] }
hyper-util = { version = "0.1", features = ["tokio"] }
ldk-node = "=0.2.0"
lightning-invoice = "=0.26.0"
rand = "=0.8.8"
tokio = { version = "1", features = ["full"] }
