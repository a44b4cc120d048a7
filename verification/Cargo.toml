[package]
name = "servo_vdom_client"
version = "0.1.0"
edition = "2021"
publish = false

[dependencies]
ipc-channel = "*"
serde = "*"
serde_json = "*"
