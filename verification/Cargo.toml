[package]
name = "png_glitch"
version = "0.1.0"
edition = "2021"
publish = false

[dependencies]
fdeflate = "*"
crc32fast = "*"
rand = "*"
