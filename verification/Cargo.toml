[package]
name = "jsonrpc"
version = "0.1.0"
edition = "2021"
publish = false

[dependencies]
strason = "=0.4.0"
reqwest = { version = "=0.13.5", default-features = false, features = ["blocking"] }
