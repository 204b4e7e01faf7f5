[package]
name = "papergrid"
version = "0.1.0"
edition = "2021"
publish = false

[dependencies]
ansi-str = "=0.5.0"
