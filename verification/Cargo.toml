[package]
name = "img_dedup"
version = "0.1.0"
edition = "2021"
publish = false

[dependencies]
img_hash = "*"
image = "0.23"
rayon = "*"
walkdir = "*"
