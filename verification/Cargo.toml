[package]
name = "mobilecode_connect"
version = "0.1.0"
edition = "2021"
publish = false

[dependencies]
base64 = "0.22"
hmac = "0.12"
sha2 = "0.10"
serde = { version = "1", features = ["derive"] }
serde_json = "1"
uuid = { version = "1", features = ["v4"] }
tokio = { version = "1", features = ["net", "io-util", "time", "rt", "macros"] }
thiserror = "1"
anyhow = "1"
libc = "0.2"
