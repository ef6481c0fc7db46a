[package]
name = "mcp_cli"
version = "0.1.0"
edition = "2021"
publish = false

[dependencies]
anyhow = "*"
clap = { version = "*", features = ["derive"] }
nix = { version = "*", features = ["signal", "process", "fs"] }
serde = { version = "*", features = ["derive"] }
serde_json = "*"
