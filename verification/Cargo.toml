[package]
name = "meshdns"
version = "0.1.0"
edition = "2021"
publish = false

[dependencies]
domain = "0.9"
rand = "0.8"
clap = { version = "4", features = ["derive"] }
default-net = "*"
docker-api = "*"
lazy_static = "*"
socket2 = "*"
tokio = { version = "1", features = ["full"] }
