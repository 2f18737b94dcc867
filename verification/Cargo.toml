[package]
name = "kercat"
version = "0.1.0"
edition = "2021"
publish = false

[dependencies]
async-std = "1"
async-std-resolver = "*"
clap = "3"
env_logger = "*"
futures = "0.3"
log = "0.4"
