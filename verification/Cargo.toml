[package]
name = "crazy_portal"
version = "0.1.0"
edition = "2021"
publish = false

[dependencies]
url = "2"
urlencoding = "2"
serde_json = "1"
toml = "0.8"
anyhow = "1"
tokio = { version = "1", features = ["full"] }
tracing = "0.1"
tracing-subscriber = "0.3"
fast-async-mutex = "*"
rand = "0.8"
socket2 = { version = "0.5", features = ["all"] }
libc = "0.2"
ansi_term = "0.12"
indicatif = "0.17"
