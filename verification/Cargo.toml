[package]
name = "gos_codegen"
version = "0.1.0"
edition = "2021"
publish = false

[dependencies]
goscript-parser = "*"
goscript-vm = "*"
