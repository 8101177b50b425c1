[package]
name = "p2p_webrtc"
version = "0.1.0"
edition = "2021"
publish = false

[dependencies]
bytes = "=1.12.1"
cpal = "=0.18.2"
once_cell = "=1.21.4"
opus = "=0.4.0"
pyo3 = "=0.30.1"
serde_json = "=1.0.154"
sonora = "=0.2.0"
tokio = { version = "=1.54.1", features = ["rt-multi-thread", "sync"] }
webrtc = "=0.14.0"
