[package]
name = "tedge_core"
version = "0.1.0"
edition = "2021"
publish = false

[dependencies]
regex = "1"
rumqttc = "*"
tokio = { version = "1", features = ["rt-multi-thread", "macros", "time", "sync"] }
