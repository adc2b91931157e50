[package]
name = "amethyst_proto"
version = "0.1.0"
edition = "2021"
publish = false

[dependencies]
aes = "0.6"
cfb8 = "0.6"
json = "0.12"
openssl = "0.10"
rand = "0.8"
regex = "1"
rustc-serialize = "0.3"
uuid = "0.8"
