[package]
name = "ttf_outline"
version = "0.1.0"
edition = "2021"
publish = false

[dependencies]
anyhow = "1"
byteorder = "1"
minifb = "*"
raqote = { version = "*", default-features = false }
