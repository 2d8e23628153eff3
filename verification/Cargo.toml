[package]
name = "power_policy"
version = "0.1.0"
edition = "2021"
publish = false

[dependencies]
embassy-sync = "*"
