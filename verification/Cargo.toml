[package]
name = "gixor"
version = "0.1.0"
edition = "2021"
publish = false

[dependencies]
git2 = { version = "*", default-features = false }
ignore = "*"
terminal_size = "*"
dirs = "*"
serde = { version = "*", features = ["derive"] }
serde_json = "*"
clap = { version = "*", features = ["derive"] }
log = "*"
env_logger = "*"
atty = "*"
opener = "*"
