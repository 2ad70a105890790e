[package]
name = "rust_search"
version = "0.1.0"
edition = "2021"
publish = false

[dependencies]
anyhow = "1"
fuzzy-matcher = "0.3.7"
walkdir = "2"
