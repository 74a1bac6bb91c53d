[package]
name = "proxy_checker"
version = "0.1.0"
edition = "2021"
publish = false

[dependencies]
rand = "0.8"
serde = { version = "1", features = ["derive"] }
serde_json = "1"
colored = "2"
lazy_static = "1"
anyhow = "1"
deadqueue = "*"
randua = "*"
tokio = { version = "1", features = ["full"] }
reqwest = { version = "0.11", features = ["blocking", "socks"] }
actix-web = "4"
rlua = "0.19"
