[package]
name = "ntgw-http"
version = "0.1.0"
edition = "2021"
publish = false

[dependencies]
base64 = "0.22"
bcrypt = "*"
sha2 = "0.10"
hmac = "0.12"
ipnet = "2"
serde = { version = "1", features = ["derive"] }
serde_json = "1"
jsonwebtoken = "9"
http = "1"
tokio = { version = "1", features = ["sync", "net", "io-util", "time", "rt", "macros"] }
reqwest = { version = "0.12", default-features = false, features = ["json"] }
anyhow = "1"
