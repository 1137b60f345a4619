[package]
name = "tun_inbound"
version = "0.1.0"
edition = "2021"
publish = false

[dependencies]
ipnet = "2"
log = "0.4"
smoltcp = "0.12"
tokio = { version = "1", features = ["io-util", "macros", "net", "rt", "sync", "time"] }
tun = { version = "0.7", features = ["async"] }
