[package]
name = "expectrl"
version = "0.1.0"
edition = "2021"
publish = false

[dependencies]
regex = "*"
ptyprocess = "*"
futures-lite = "*"
async-trait = "*"
nix = { version = "*", features = ["poll", "term", "fs", "signal", "process", "ioctl"] }
