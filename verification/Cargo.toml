[package]
name = "html_parser"
version = "0.1.0"
edition = "2021"
publish = false

[dependencies]
serde_json = "1"
tree-sitter = "*"
tree-sitter-html = "*"
wit-bindgen = "*"
