[package]
name = "vault_node"
version = "0.1.0"
edition = "2021"
publish = false

[dependencies]
bitcoin = { version = "0.32", features = ["base64"] }
miniscript = "12"
serde = { version = "1", features = ["derive"] }
subtle = "2"
tokio = { version = "1", features = ["full"] }
toml = "0.8"
zeroize = "1"
