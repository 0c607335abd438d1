[package]
name = "headers_cache"
version = "0.1.0"
edition = "2021"
publish = false

[dependencies]
parity-scale-codec = { version = "3", features = ["derive"] }
sp-runtime = "*"
sp-core = "*"
getrandom = "0.2"
anyhow = "1"
log = "0.4"
