[package]
name = "buzz"
version = "0.1.0"
edition = "2021"
publish = false

[dependencies]
atomic-write-file = "0.3"
dirs = "6"
libc = "0.2"
serde = { version = "1", features = ["derive"] }
serde_json = "1"
sherpa-onnx = "1"
uuid = { version = "1", features = ["v4"] }
webkit2gtk = "2"
zbus = "5"
