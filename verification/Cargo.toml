[package]
name = "my_socks5_server"
version = "0.1.0"
edition = "2021"
publish = false

[dependencies]
tokio = { version = "1", default-features = false, features = ["io-util", "net", "rt-multi-thread", "sync", "time"] }
