[package]
name = "slkrd"
version = "0.1.0"
edition = "2021"
publish = false

[dependencies]
rand = "=0.8.8"
socket2 = "=0.5.10"
serde = { version = "=1.0.229", features = ["derive"] }
serde_json = "=1.0.154"
uuid = { version = "=1.29.0", features = ["serde"] }
tokio = { version = "=1.54.1", features = ["fs", "io-util", "net"] }
bytes = "=1.12.1"
indicatif = "=0.17.11"
webrtc = "=0.17.2"
