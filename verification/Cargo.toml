[package]
name = "fanout_engine"
version = "0.1.0"
edition = "2021"
publish = false

[dependencies]
tokio = { version = "=1.53.2", features = ["rt-multi-thread", "macros", "time"] }
log = "=0.4.34"
env_logger = "=0.11.11"
