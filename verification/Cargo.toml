[package]
name = "cmdloader"
version = "0.1.0"
edition = "2021"
publish = false

[dependencies]
anyhow = "1"
shell-words = "1"
sha2 = "0.10"
hex = "0.4"
