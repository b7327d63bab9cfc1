[package]
name = "echo_authority_core"
version = "0.2.0"
edition = "2021"
publish = false

[dependencies]
ed25519-dalek = "2"
sha2 = "0.10"
serde = { version = "1", features = ["derive"] }
serde_json = "1"
getrandom = "0.2"
