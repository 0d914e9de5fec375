[package]
name = "clmul"
version = "0.1.0"
edition = "2021"
publish = false

[dependencies]
core_detect = "*"

[dev-dependencies]
morton-encoding = "*"
