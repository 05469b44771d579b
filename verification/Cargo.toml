[package]
name = "stabby_abi"
version = "0.1.0"
edition = "2021"
publish = false

[dependencies]
libc = "0.2"
serde = "1"

[dev-dependencies]
rand = "0.8"
