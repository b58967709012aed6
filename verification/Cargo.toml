[package]
name = "stream_stash"
version = "0.1.0"
edition = "2021"
publish = false

[dependencies]
pkce = "*"
reqwest = { version = "*", default-features = false }
serde = { version = "*", features = ["derive"] }
serde_json = "*"
url = "*"
