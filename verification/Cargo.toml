[package]
name = "scabbard"
version = "0.1.0"
edition = "2021"
publish = false

[dependencies]
transact = "*"
sawtooth-sabre = "*"
serde = "*"
serde_json = "*"

[dev-dependencies]
protobuf = "*"
