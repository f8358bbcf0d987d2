[package]
name = "destinypkg"
version = "0.1.0"
edition = "2021"
publish = false

[dependencies]
sha1 = "0.10"
sha2 = "0.10"
rsa = "0.9"
libc = "0.2"

[dev-dependencies]
rand = "0.8"
