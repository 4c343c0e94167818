[package]
name = "revm"
version = "0.1.0"
edition = "2021"
publish = false

[dependencies]
ruint = "1"
alloy-primitives = "1"
bitvec = "1"
substrate-bn = "0.6"
