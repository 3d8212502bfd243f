[package]
name = "group"
version = "0.1.0"
edition = "2021"
publish = false

[dependencies]
subtle = "*"
rand_core = "*"
