[package]
name = "zust_core"
version = "0.1.0"
edition = "2021"
publish = false

[dependencies]
rand = "0.8"
base64 = "0.22"
aes = "0.8"
cbc = "0.1"
block-padding = "0.3"
rsa = "0.9"
regex = "1"
url = "2"
serde = { version = "1", features = ["derive"] }
serde_json = "1"
reqwest = { version = "0.12", default-features = false, features = ["rustls-tls", "cookies", "gzip", "brotli", "json"] }
tokio = { version = "1", features = ["rt", "macros", "time", "sync"] }
thiserror = "2"
log = "0.4"
dirs = "5"
