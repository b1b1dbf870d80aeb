[package]
name = "mindmap-cli"
version = "0.1.0"
edition = "2021"
publish = false

[dependencies]
anyhow = "1"
atty = "0.2"
blake3 = "1"
chrono = "0.4"
clap = { version = "4", features = ["derive"] }
pretty-console = "*"
regex = "1"
serde = { version = "1", features = ["derive"] }
serde_json = "1"
shell-words = "1"
tempfile = "3"
