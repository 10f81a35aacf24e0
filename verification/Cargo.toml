[package]
name = "nx"
version = "0.1.0"
edition = "2021"
publish = false

[dependencies]
lz4_flex = "*"
memmap2 = "*"
thiserror = "*"
