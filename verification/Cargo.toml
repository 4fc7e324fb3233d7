[package]
name = "kernel"
version = "0.1.0"
edition = "2021"
publish = false

[dependencies]
rlibc = "1.0"
spin = "0.5"
volatile = "0.2"
