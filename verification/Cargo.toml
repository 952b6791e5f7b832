[package]
name = "vrpn"
version = "0.1.0"
edition = "2021"
publish = false

[dependencies]
bytes = "1"
futures = "0.3"
socket2 = { version = "0.5", features = ["all"] }
tokio = { version = "1", features = ["net", "io-util", "time", "rt"] }
