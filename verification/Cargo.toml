[package]
name = "cargo_release"
version = "0.1.0"
edition = "2021"
publish = false

[dependencies]
regex = "=1.13.1"
clap = { version = "=4.6.7", features = ["derive"] }
clap-cargo = { version = "=0.19.0", features = ["cargo_metadata"] }
cargo_metadata = "=0.23.1"
semver = "=1.0.28"
toml_edit = "=0.25.15"
log = "=0.4.34"
