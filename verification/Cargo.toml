[package]
name = "cargo_geiger"
version = "0.1.0"
edition = "2021"
publish = false

[dependencies]
anyhow = "=1.0.104"
cargo = "=0.96.0"
cargo-credential-libsecret = "=0.5.6"
cargo-credential-macos-keychain = "=0.4.21"
cargo-credential-wincred = "=0.4.21"
cargo-geiger-serde = "=0.3.0"
cargo-util = "=0.2.28"
cargo_metadata = "=0.23.1"
kstring = "=2.0.0"
serde_json = "=1.0.154"
