[package]
name = "logic_tracer"
version = "0.1.0"
edition = "2021"
publish = false

[dependencies]
regex = "1"
log = "0.4"
dev_utils = "*"
