[package]
name = "semantic_outline"
version = "0.1.0"
edition = "2021"
publish = false

[dependencies]
anyhow = "1"
serde = { version = "1", features = ["derive"] }
serde_json = { version = "1", features = ["preserve_order"] }
tree-sitter = "0.20"
tree-sitter-rust = "0.20"
