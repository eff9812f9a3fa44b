[package]
name = "dairy_ledger"
version = "0.1.0"
edition = "2021"
publish = false

[dependencies]
ic-stable-structures = "0.6"
candid = "0.10"
ic-cdk = "0.13"
serde = { version = "1", features = ["derive"] }
