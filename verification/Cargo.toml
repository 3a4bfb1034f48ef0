[package]
name = "pkgid"
version = "0.1.0"
edition = "2021"
rust-version = "1.95"
publish = false

[dependencies]
cargo = "=0.96.0"
cargo-credential-libsecret = "=0.5.6"
cargo-util = "=0.2.28"
kstring = "=2.0.0"
