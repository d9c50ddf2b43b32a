[package]
name = "rust_gb"
version = "0.1.0"
edition = "2021"
publish = false

[dependencies]
tree-sitter = "*"
tree-sitter-c = "*"
streaming-iterator = "*"
clap = { version = "4", features = ["derive"] }
colored = "*"
console = "*"
indicatif = "*"
include_dir = "*"
thiserror = "*"
voladdress = "*"
