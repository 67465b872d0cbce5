[package]
name = "wispr_flow_linux_helper"
version = "0.1.0"
edition = "2021"
publish = false

[dependencies]
env_logger = "0.11"
libc = "0.2"
log = "0.4"
serde_json = "1"
x11rb = { version = "0.13", features = ["xtest"] }
