[package]
name = "plllots"
version = "0.1.0"
edition = "2021"
publish = false

[dependencies]
kurbo = "*"
svg = "*"
wide = "0.7"
rayon = "*"
