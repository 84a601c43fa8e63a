[package]
name = "pacdump"
version = "0.1.0"
edition = "2021"
publish = false

[dependencies]
regex = "1"
anyhow = "1"
clap = { version = "4", features = ["derive"] }
nix = { version = "*", features = ["signal", "term"] }
alpm = "*"
alpm-utils = "*"
compress-tools = "*"
