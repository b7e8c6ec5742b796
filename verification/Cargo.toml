[package]
name = "commitfmt"
version = "0.1.0"
edition = "2021"
publish = false

[dependencies]
memchr = "2"
regex = "1"
toml = "*"
serde = { version = "1", features = ["derive"] }
serde_derive = "1"
thiserror = "*"
