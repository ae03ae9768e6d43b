[package]
name = "code_graph"
version = "0.1.0"
edition = "2021"
publish = false

[dependencies]
log = "0.4"
tree-sitter = "0.20"
tree-sitter-python = "0.20"
