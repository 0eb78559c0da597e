[package]
name = "cz4r"
version = "0.1.0"
edition = "2021"
publish = false

[dependencies]
rust_decimal = "1"
scrypt = "0.11"
password-hash = "0.5"
rand = "0.8"
time = "0.3"
