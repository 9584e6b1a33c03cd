[package]
name = "net"
version = "0.1.0"
edition = "2021"
publish = false

[dependencies]
bytes = "=1.12.1"
env_logger = "=0.11.11"
futures-util = "=0.3.34"
log = "=0.4.34"
serde = { version = "=1.0.229", features = ["derive"] }
serde_json = "=1.0.154"
tokio = { version = "=1.54.1", features = ["macros", "net", "rt", "sync"] }
tokio-tungstenite = "=0.30.0"
ts-rs = "=12.0.1"
webrtc = "=0.13.0"
