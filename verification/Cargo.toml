[package]
name = "mouflon"
version = "0.1.0"
edition = "2021"
publish = false

[dependencies]
base64-url = "*"
bytes = "1"
chrono = "0.4"
directories-next = "2"
env_logger = "*"
hyper = { version = "0.14", features = ["full"] }
hyper-tls = "0.5"
log = "*"
mime = "0.3"
rand = "0.8"
serde = { version = "1", features = ["derive"] }
serde_json = "1"
serde_with = "*"
sha2 = "0.10"
tokio = { version = "1", features = ["full"] }
url = "2"
