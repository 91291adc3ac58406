[package]
name = "ipsp_manager"
version = "0.1.0"
edition = "2021"
publish = false

[dependencies]
async-std = "*"
bluez-async = "*"
env_logger = "*"
log = "*"
