[package]
name = "u2f_nfc_bridge"
version = "0.1.0"
edition = "2021"
publish = false

[dependencies]
nfc-sys = "*"
privdrop = "*"
