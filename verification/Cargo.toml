[package]
name = "xeno"
version = "0.1.0"
edition = "2021"
publish = false

[dependencies]
crc = "*"
aes = "*"
cbc = "*"
sha2 = "*"
bit-set = "*"

[dev-dependencies]
lzma-rs = "*"
