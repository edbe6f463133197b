[package]
name = "aci"
version = "0.1.0"
edition = "2021"
publish = false

[dependencies]
blake3 = "1"
tree-sitter = "0.25"
tree-sitter-c = "*"
tree-sitter-cpp = "*"
tree-sitter-go = "*"
tree-sitter-java = "*"
tree-sitter-javascript = "*"
tree-sitter-objc = "*"
tree-sitter-python = "*"
tree-sitter-rust = "*"
tree-sitter-typescript = "*"
serde = { version = "1", features = ["derive"] }
serde_json = "1"
clap = { version = "4", features = ["derive"] }
thiserror = "2"
tempfile = "3"
