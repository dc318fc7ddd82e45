[package]
name = "fyaml"
version = "0.1.0"
edition = "2021"
publish = false

[dependencies]
fyaml-sys = "*"
libc = "*"
indexmap = "*"
