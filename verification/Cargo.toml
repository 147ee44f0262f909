[package]
name = "line_relay"
version = "0.1.0"
edition = "2021"
publish = false

[dependencies]
futures = "=0.1.31"
tokio-core = "=0.1.18"
log = "=0.3.9"
env_logger = "=0.4.3"
