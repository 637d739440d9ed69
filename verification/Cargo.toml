[package]
name = "contract_descriptor"
version = "0.1.0"
edition = "2021"
publish = false

[dependencies]
blake2-rfc = "0.2"
serde_json = "1"
