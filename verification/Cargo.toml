[package]
name = "mdrs"
version = "0.1.0"
edition = "2021"
publish = false

[dependencies]
pulldown-cmark = { version = "=0.13.6", default-features = false }
ropey = "=1.6.1"
rust-embed = { version = "=8.13.0", features = ["include-exclude"] }
serde = { version = "=1.0.229", features = ["derive"] }
toml = "=0.8.23"
