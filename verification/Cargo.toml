[package]
name = "clippit"
version = "0.1.0"
edition = "2021"
publish = false

[dependencies]
regex = "*"
textwrap = "*"
anyhow = "*"
terminal_size = "*"
