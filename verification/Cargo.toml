[package]
name = "i2c_engine"
version = "0.1.0"
edition = "2021"
publish = false

[dependencies]
embedded-hal = "1"
