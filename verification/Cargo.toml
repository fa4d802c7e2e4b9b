[package]
name = "comde"
version = "0.1.0"
edition = "2021"
publish = false

[dependencies]
zstd = "*"
xz2 = "*"
flate2 = "*"
snap = "*"
phf_codegen = "*"
