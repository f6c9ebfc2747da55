[package]
name = "pike"
version = "0.1.0"
edition = "2021"
publish = false

[dependencies]
anyhow = "*"
clap = { version = "*", features = ["derive"] }
colog = "*"
colored = "*"
ctrlc = "*"
libc = "*"
liquid = "=0.24.0"
log = "*"
nix = { version = "*", features = ["signal", "process"] }
rand = "*"
serde = { version = "*", features = ["derive"] }
serde_ignored = "*"
serde_json = "*"
serde_yaml = "*"
toml = "*"
