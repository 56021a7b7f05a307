[package]
name = "fbtext"
version = "0.1.0"
edition = "2021"
publish = false

[dependencies]
bootloader_api = "0.11"
noto-sans-mono-bitmap = "0.3"
