[package]
name = "rw-vn100"
version = "0.2.1"
edition = "2021"
publish = false

[dependencies]
serialport = { version = "4", default-features = false }
