[package]
name = "serial_metrics"
version = "0.1.0"
edition = "2021"
publish = false

[dependencies]
clap = { version = "=4.6.7", features = ["derive", "env"] }
serialport = { version = "=4.10.1", default-features = false }
ureq = "=2.12.1"
