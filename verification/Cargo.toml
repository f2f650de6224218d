[package]
name = "cypher"
version = "0.1.0"
edition = "2021"
publish = false

[dependencies]
fixed = "*"
sha2 = "*"
