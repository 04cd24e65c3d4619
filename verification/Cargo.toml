[package]
name = "lintcore"
version = "0.1.0"
edition = "2021"
publish = false

[dependencies]
annotate-snippets = "0.11"
anyhow = "1"
colored = "2"
tree-sitter = "0.25"
