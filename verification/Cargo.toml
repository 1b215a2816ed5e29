[package]
name = "gosub_renderer"
version = "0.1.0"
edition = "2021"
publish = false

[dependencies]
anyhow = "1"
smallvec = "1"
taffy = "0.4"
vello = { version = "0.1", default-features = false }
