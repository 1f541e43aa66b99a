[package]
name = "lis2dh12"
version = "0.1.0"
edition = "2021"
publish = false

[dependencies]
accelerometer = "*"
embassy-traits = "*"
embedded-hal = "0.2"
