[package]
name = "dsmr_proto"
version = "0.1.0"
edition = "2021"
publish = false

[dependencies]
anyhow = "*"
clap = { version = "*", features = ["derive"] }
clap-verbosity-flag = "*"
env_logger = "*"
lazy_static = "*"
libc = "*"
log = "*"
prometheus_exporter = "*"
serialport = { version = "*", default-features = false }
