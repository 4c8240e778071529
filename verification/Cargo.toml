[package]
name = "analysis"
version = "0.1.0"
edition = "2021"
publish = false

[dependencies]
analyzeme = "*"
anyhow = "1"
cargo_metadata = "*"
crates_io_api = "*"
indicatif = "*"
