[package]
name = "cargo-play"
version = "0.1.0"
edition = "2021"
publish = false

[dependencies]
log = "0.4"
pathdiff = "0.1"
toml = "0.5"
