[package]
name = "membercard"
version = "0.1.0"
edition = "2021"
publish = false

[dependencies]
ring = "0.17"
base64 = "0.22"
serde_json = "1"
url = "2"
serde = { version = "1", features = ["derive"] }
chrono = "0.4"
tokio = { version = "1", features = ["rt-multi-thread", "macros", "time"] }
reqwest = { version = "0.12", features = ["json"] }
oauth2 = "4"
secrecy = "0.8"
thiserror = "1"
uuid = { version = "1", features = ["v4"] }
qrcode = "0.13"
image = "0.24"
