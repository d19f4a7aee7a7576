[package]
name = "sp_stats"
version = "0.1.0"
edition = "2021"
publish = false

[dependencies]
parity-scale-codec = { version = "=3.7.5", default-features = false, features = ["std"] }
sp-runtime-interface = "=28.0.0"
