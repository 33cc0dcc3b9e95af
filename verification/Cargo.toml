[package]
name = "pms7003"
version = "0.1.0"
edition = "2021"
publish = false

[dependencies]
lazy_static = "1"
log = "0.4"
prometheus_exporter = "0.8"
serialport = { version = "4", default-features = false }

[dev-dependencies]
nom = "7"
