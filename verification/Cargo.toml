[package]
name = "fnrow"
version = "0.1.0"
edition = "2021"
publish = false

[dependencies]
anyhow = "*"
cairo-rs = { version = "*", default-features = false }
drm = "*"
input = "*"
input-linux = "*"
input-linux-sys = "*"
libc = "*"
