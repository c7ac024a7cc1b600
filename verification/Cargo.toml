[package]
name = "maple_core"
version = "0.1.0"
edition = "2021"
publish = false

[dependencies]
unicode-width = "0.1"
tokio = { version = "1", features = ["rt", "rt-multi-thread", "time", "sync", "macros"] }
futures = "0.3"
crossbeam-channel = "0.5"
parking_lot = "0.11"
anyhow = "1"
log = "0.4"
async-trait = "0.1"
serde = { version = "1", features = ["derive"] }
serde_json = "1"
clap = { version = "3", features = ["derive"] }
structopt = "0.3"
directories = "4"
rayon = "1"
tree-sitter-tags = "0.20"
tree-sitter-javascript = "0.20"
tree-sitter-python = "0.20"
tree-sitter-rust = "0.20"
