[package]
name = "dr_rustario"
version = "0.1.0"
edition = "2021"
publish = false

[dependencies]
rand = "0.8"
rand_chacha = "0.3"
num-format = "0.4"
