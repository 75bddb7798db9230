[package]
name = "libkazm"
version = "0.1.0"
edition = "2021"
publish = false

[dependencies]
ctrlc = "*"
log = "*"
simple_logger = "*"
