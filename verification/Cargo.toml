[package]
name = "srctl"
version = "0.1.0"
edition = "2021"
publish = false

[dependencies]
anyhow = "*"
dialoguer = "*"
env_logger = "*"
local-ip-address = "*"
log = "*"
tokio = { version = "*", features = ["full"] }
tokio-modbus = { version = "*", features = ["tcp-server"] }
