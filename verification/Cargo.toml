[package]
name = "memfs"
version = "0.1.0"
edition = "2021"
publish = false

[dependencies]
fuser = "*"
libc = "*"
nix = { version = "*", features = ["process", "signal"] }
