[package]
name = "fileshare"
version = "0.1.0"
edition = "2021"
publish = false

[dependencies]
uuid = { version = "=1.27.0", features = ["v4", "v5", "serde"] }
rcgen = "=0.14.10"
axum = "=0.8.9"
axum-extra = { version = "=0.12.6", features = ["cookie"] }
axum-server = { version = "=0.8.0", features = ["tls-rustls"] }
clap = { version = "=4.6.7", features = ["derive"] }
local-ip-address = "=0.6.13"
serde = { version = "=1.0.229", features = ["derive"] }
tokio = { version = "=1.53.2", features = ["rt-multi-thread", "macros", "fs"] }
tokio-util = { version = "=0.7.19", features = ["io"] }
