[package]
name = "disk_cleaner"
version = "0.1.0"
edition = "2021"
publish = false

[dependencies]
blake3 = "*"
trash = "*"
walkdir = "*"
rayon = "*"
