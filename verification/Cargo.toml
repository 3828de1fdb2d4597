[package]
name = "nrv64emu"
version = "0.1.0"
edition = "2021"
publish = false

[dependencies]
bytes = "*"
hex = "*"
