[package]
name = "cargo_regression"
version = "0.1.0"
edition = "2021"
publish = false

[dependencies]
regex = "*"
glob = "*"
similar = "*"
clap = { version = "*", features = ["derive"] }
colored = "*"
indexmap = { version = "*", features = ["serde"] }
serde = { version = "*", features = ["derive"] }
tokio = { version = "*", features = ["rt-multi-thread", "macros", "fs", "process", "sync"] }
toml = "*"
async-recursion = "*"
