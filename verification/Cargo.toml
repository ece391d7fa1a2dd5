[package]
name = "wtftw"
version = "0.1.0"
edition = "2021"
publish = false

[dependencies]
serde_json = "1"
getopts = "0.2"
libc = "0.2"
