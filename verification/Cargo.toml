[package]
name = "rubyfmt_ffi"
version = "0.1.0"
edition = "2021"
publish = false

[dependencies]
rubyfmt = "=0.0.0-wip"
