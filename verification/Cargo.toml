[package]
name = "stegegg"
version = "0.1.0"
edition = "2021"
publish = false

[dependencies]
sha2 = "0.10"
getopts = "0.2"
image = { version = "0.24", default-features = false, features = ["png", "bmp"] }
