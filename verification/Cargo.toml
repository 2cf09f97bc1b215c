[package]
name = "sqlstate_codegen"
version = "0.1.0"
edition = "2021"
publish = false

[dependencies]
linked-hash-map = "*"
phf_codegen = "*"
