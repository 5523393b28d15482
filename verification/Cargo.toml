[package]
name = "virtme_ng_init"
version = "0.1.0"
edition = "2021"
publish = false

[dependencies]
base64 = "=0.23.1"
nix = { version = "=0.31.3", features = ["feature", "fs", "hostname", "mount", "reboot", "user"] }
users = "=0.11.0"
