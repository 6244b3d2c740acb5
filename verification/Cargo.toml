[package]
name = "erps"
version = "0.1.0"
edition = "2021"
publish = false

[dependencies]
clap = "*"
crossbeam-channel = "*"
env_logger = "*"
indexmap = "*"
log = "*"
rand = "*"
regex = "*"
rumqtt = "*"
serde = "*"
serde_derive = "*"
serde_json = "*"
uuid = { version = "*", features = ["v4"] }
