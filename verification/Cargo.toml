[package]
name = "babel42"
version = "0.1.0"
edition = "2021"
publish = false

[dependencies]
clap = { version = "4", features = ["derive"] }
petgraph = "0.6"
quick-xml = "0.36"
regex = "1"
serde = { version = "1", features = ["derive"] }
serde_json = "1"
serde_yaml = "0.9"
tree-sitter = "0.24"
tree-sitter-cpp = "0.23"
tree-sitter-python = "0.23"
walkdir = "2"
