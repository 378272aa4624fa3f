[package]
name = "comix_kernel"
version = "0.1.0"
edition = "2021"
publish = false

[dependencies]
hashbrown = "0.15"
smoltcp = "0.12"
