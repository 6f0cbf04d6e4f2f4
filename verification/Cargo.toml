[package]
name = "composite_cone"
version = "0.1.0"
edition = "2021"
publish = false

[dependencies]
clarabel = "=0.11.1"
libc = "=0.2.191"
