[package]
name = "ruts_tcp"
version = "0.1.0"
edition = "2021"
publish = false

[dependencies]
etherparse = "0.14"
nix = { version = "0.28", features = ["poll"] }
tun-tap = "0.1"
