[package]
name = "anime4k_build"
version = "0.1.0"
edition = "2021"
publish = false

[dependencies]
regex = "=1.13.1"
naga = { version = "=24.0.0", features = ["wgsl-in", "wgsl-out"] }
wgsl-minifier = "=0.7.0"
serde = { version = "=1.0.229", features = ["derive"] }
serde_norway = "=0.9.42"
serde_json = "=1.0.154"
