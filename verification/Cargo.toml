[package]
name = "newline_lint"
version = "0.1.0"
edition = "2021"
publish = false

[dependencies]
clap = { version = "4", features = ["derive"] }
content_inspector = "0.2"
glob = "0.3"
rayon = "1"
walkdir = "2"
