[package]
name = "md2nb"
version = "0.1.0"
edition = "2021"
publish = false

[dependencies]
pulldown-cmark = { version = "0.9", default-features = false }
clap = { version = "3.2", features = ["derive"] }
wolfram-app-discovery = "*"
wolfram-expr = "*"
wstp = "*"
