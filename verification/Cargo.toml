[package]
name = "bm_client"
version = "0.1.0"
edition = "2021"
publish = false

[dependencies]
byteorder = "1"
encoding = "0.2"
rand = "0.3"
rust-crypto = "0.2"
time = "0.1"
