[package]
name = "kdt"
version = "0.1.0"
edition = "2021"
publish = false

[dependencies]
aes-gcm = "0.10"
clap = { version = "4", features = ["derive"] }
colored = "2"
generic-array = "0.14"
pqc_dilithium = "0.2"
pqc_kyber = "0.7"
rand = "0.8"
ron = "0.8"
serde = { version = "1", features = ["derive"] }
sha2 = "0.10"
