[package]
name = "net_fetch"
version = "0.1.0"
edition = "2021"
publish = false

[dependencies]
url = "2"
ipc-channel = "*"
serde = { version = "1", features = ["derive"] }
