[package]
name = "kargs"
version = "0.1.0"
edition = "2021"
publish = false

[dependencies]
anyhow = "1"
liboverdrop = "0.1"
ostree = "*"
ostree-ext = "*"
toml = "0.8"
