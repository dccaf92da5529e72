[package]
name = "style_derive"
version = "0.1.0"
edition = "2021"
publish = false

[dependencies]
quote = "1"
syn = "2"
