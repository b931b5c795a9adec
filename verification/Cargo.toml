[package]
name = "nidex"
version = "0.1.0"
edition = "2021"
publish = false

[dependencies]
serde = { version = "1", features = ["derive"] }
serde_json = "1"
chrono = "0.4"
tokio = { version = "1", features = ["rt-multi-thread", "macros", "sync", "time", "fs"] }
futures = "0.3"
bytes = "1"
eventsource-stream = "0.2"
http = "1"
tree-sitter = "0.25"
tree-sitter-bash = "*"
tree-sitter-c = "*"
tree-sitter-cpp = "*"
tree-sitter-go = "*"
tree-sitter-javascript = "*"
tree-sitter-python = "*"
tree-sitter-rust = "*"
tree-sitter-swift = "*"
tree-sitter-typescript = "*"
ignore = "0.4"
sqlx = { version = "0.8", default-features = false, features = ["sqlite", "runtime-tokio"] }
crossterm = "0.28"
ratatui = "0.29"
