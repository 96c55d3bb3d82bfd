[package]
name = "tinyhttp"
version = "0.1.0"
edition = "2021"
publish = false

[dependencies]
base64 = { version = "0.22", default-features = false }
embassy-futures = "*"
embassy-net = { version = "*", features = ["tcp", "proto-ipv4", "medium-ethernet"] }
embassy-time = "*"
embedded-io-async = "*"
heapless = "0.8"
numtoa = "0.2"
unicase = "2"
