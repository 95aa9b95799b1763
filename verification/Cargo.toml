[package]
name = "rtic_runtime"
version = "0.1.0"
edition = "2021"
publish = false

[dependencies]
proc-macro2 = "=1.0.107"
quote = "=1.0.47"
rtic-syntax = "=0.4.0"
syn = "=1.0.109"
