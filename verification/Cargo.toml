[package]
name = "olio"
version = "1.4.0"
edition = "2021"
publish = false

[dependencies]
libc = "0.2"
memmap = "0.7"

[dev-dependencies]
tempfile = "3"
