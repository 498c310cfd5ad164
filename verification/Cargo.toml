[package]
name = "post_ledger"
version = "0.1.0"
edition = "2021"
publish = false

[dependencies]
hdk = "*"
holochain_json_derive = "*"
serde = { version = "1", features = ["derive"] }
serde_derive = "1"
serde_json = "1"
