[package]
name = "pact_core"
version = "0.1.0"
edition = "2021"
publish = false

[dependencies]
serde_json = "*"
url = "*"
uuid = { version = "*", features = ["v4"] }
pact_models = "*"
