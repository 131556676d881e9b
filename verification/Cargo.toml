[package]
name = "deck_optimizer"
version = "0.1.0"
edition = "2021"
publish = false

[dependencies]
clap = "4"
glob = "0.3"
nix = { version = "0.28", features = ["user"] }
serde = { version = "1", features = ["derive"] }
serde_json = "1"
sysinfo = "0.30"
