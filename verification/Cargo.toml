[package]
name = "lora_link"
version = "0.1.0"
edition = "2021"
publish = false

[dependencies]
hex = "*"
crossbeam-channel = "*"

[dev-dependencies]
lz4_flex = "*"
