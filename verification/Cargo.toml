[package]
name = "fabric_completion"
version = "0.1.0"
edition = "2021"
publish = false

[dependencies]
cachedir = "*"
shell_completion = "*"
