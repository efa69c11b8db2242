[package]
name = "cc_switch_auth"
version = "0.1.0"
edition = "2021"
publish = false

[dependencies]
aes-gcm = "0.10"
base64 = "0.22"
rand = "0.9"
sha2 = "0.10"
chrono = "0.4"
serde = { version = "1", features = ["derive"] }
serde_json = "1"
url = "2"
uuid = { version = "1", features = ["v4"] }
whoami = "1"
log = "0.4"
tokio = { version = "1", features = ["sync", "time", "rt"] }
axum = "0.8"
