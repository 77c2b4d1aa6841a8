[package]
name = "turn_tracker"
version = "0.1.0"
edition = "2021"
publish = false

[dependencies]
itertools = "*"
log = "0.4"
