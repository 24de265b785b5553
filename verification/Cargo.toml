[package]
name = "starrustdesk"
version = "0.1.0"
edition = "2021"
publish = false

[dependencies]
base64 = "*"
kcp-sys = "*"
protobuf = "*"
serde = { version = "*", features = ["derive"] }
serde_json = "*"
sha2 = "*"
tokio = { version = "*", features = ["full"] }
uuid = { version = "*", features = ["v4"] }
