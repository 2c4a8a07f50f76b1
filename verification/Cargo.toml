[package]
name = "sdf_font"
version = "0.1.0"
edition = "2021"
publish = false

[dependencies]
hashbrown = "*"
lz4-compression = "*"
rustc_apfloat = "*"
