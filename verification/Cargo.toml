[package]
name = "lang_profile"
version = "0.1.0"
edition = "2021"
publish = false

[dependencies]
tree-sitter = "=0.22.6"
tree-sitter-c = "=0.21.4"
tree-sitter-go = "=0.21.2"
tree-sitter-html = "=0.20.4"
tree-sitter-javascript = "=0.21.4"
tree-sitter-kotlin = "=0.3.8"
tree-sitter-lua = "=0.1.0"
tree-sitter-python = "=0.21.0"
tree-sitter-rust = "=0.21.2"
tree-sitter-swift = "=0.5.0"
tree-sitter-typescript = "=0.21.2"
