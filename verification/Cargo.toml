[package]
name = "subxt"
version = "0.1.0"
edition = "2021"
publish = false

[dependencies]
parity-scale-codec = { version = "3", features = ["derive"] }
primitive-types = { version = "0.12", default-features = false }
sp-runtime = { version = "*", default-features = false }
