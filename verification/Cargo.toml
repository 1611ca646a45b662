[package]
name = "aar"
version = "0.1.0"
edition = "2021"
publish = false

[dependencies]
dexparser = "*"
log = "*"
env_logger = "*"
