[package]
name = "cargo_fdep"
version = "0.1.0"
edition = "2021"
publish = false

[dependencies]
cargo_metadata = "0.18.1"
rustc_version = "0.4"
serde_json = "1"
wait-timeout = "0.2"
which = "6"
