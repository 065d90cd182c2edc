[package]
name = "dualbuild"
version = "0.1.0"
edition = "2021"
publish = false

[dependencies]
comfy-table = "*"
num-format = "*"
semver = "1"
globset = "*"
serde = { version = "1", features = ["derive"] }
serde_json = "1"
alloy-primitives = "*"
alloy-json-abi = "*"
