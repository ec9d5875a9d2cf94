[package]
name = "lcg_crack"
version = "0.1.0"
edition = "2021"
publish = false

[dependencies]
num = "0.4"
num-bigint = "0.4"
