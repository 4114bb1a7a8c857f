[package]
name = "code_minifier"
version = "0.1.0"
edition = "2021"
publish = false

[dependencies]
walkdir = "2"
