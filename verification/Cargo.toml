[package]
name = "sheesy_vault"
version = "0.1.0"
edition = "2021"
publish = false

[dependencies]
yaml-rust = "0.4"
serde = { version = "1", features = ["derive"] }
serde_yaml = "0.8"
gpgme = "*"
glob = "0.3"
mktemp = "*"
atty = "0.2"
clap = "2"
