[package]
name = "stratisd"
version = "0.1.0"
edition = "2021"
publish = false

[dependencies]
serde = { version = "1", features = ["derive"] }
serde_json = "1"
clap = "3"
nix = "0.26"
tokio = { version = "1", features = ["rt-multi-thread", "sync", "macros"] }
