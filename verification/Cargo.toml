[package]
name = "a9nloader"
version = "0.1.0"
edition = "2021"
publish = false

[dependencies]
uefi = { version = "*", features = ["alloc"] }
