[package]
name = "attach_embed"
version = "0.1.0"
edition = "2021"
publish = false

[dependencies]
cfb = "*"
encoding_rs = "*"
zip = "*"
