[package]
name = "debugbunny"
version = "0.1.0"
edition = "2021"
publish = false

[dependencies]
sha2 = "*"
zstd = "*"
tokio = { version = "*", features = ["full"] }
reqwest = { version = "*", default-features = false }
url = "*"
http-body-util = "*"

[dev-dependencies]
serde_json = "*"
