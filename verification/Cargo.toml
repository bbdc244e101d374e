[package]
name = "relay_utils"
version = "0.1.0"
edition = "2021"
publish = false

[dependencies]
async-std = "*"
substrate-prometheus-endpoint = "*"
log = "*"
