[package]
name = "glyph_layout"
version = "0.1.0"
edition = "2021"
publish = false

[dependencies]
linked-hash-map = "0.5"
unicode-normalization = "0.1"
xi-unicode = "*"
rusttype = "*"
