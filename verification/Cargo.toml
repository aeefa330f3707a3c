[package]
name = "storage_hasher"
version = "0.1.0"
edition = "2021"
publish = false

[dependencies]
ark-ff = "0.4"
ark-r1cs-std = "0.4"
ark-relations = "0.4"
merkletree = "=0.10.0"
rand = "=0.4.6"
serde = { version = "=1.0.229", features = ["derive"] }
