[package]
name = "mdbook_hints"
version = "0.1.0"
edition = "2021"
publish = false

[dependencies]
markdown = "1.0"
mdbook = { version = "0.4", default-features = false }
regex = "1"
serde = { version = "1", features = ["derive"] }
serde_json = "1"
toml = "0.8"
