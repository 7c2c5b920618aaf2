[package]
name = "cymbal"
version = "0.1.0"
edition = "2021"
publish = false

[dependencies]
anyhow = "1"
async-channel = "2"
chrono = "0.4"
clap = { version = "4", features = ["derive"] }
dirs = "*"
futures = "0.3"
ignore = "0.4"
indexmap = { version = "2", features = ["serde"] }
serde = { version = "1", features = ["derive"] }
sqlx = { version = "0.8", default-features = false, features = ["sqlite", "runtime-tokio", "chrono", "derive", "macros", "migrate"] }
tokio = { version = "1", features = ["rt-multi-thread", "macros", "fs"] }
toml = "*"
tree-sitter = "*"
tree-sitter-c = "*"
tree-sitter-cpp = "*"
tree-sitter-fish = "*"
tree-sitter-go = "*"
tree-sitter-haskell = "*"
tree-sitter-json = "*"
tree-sitter-ocaml = "*"
tree-sitter-odin = "*"
tree-sitter-python = "*"
tree-sitter-rust = "*"
tree-sitter-typescript = "*"
