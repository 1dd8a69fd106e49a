[package]
name = "multiparse"
version = "0.1.0"
edition = "2021"
publish = false

[dependencies]
serde_json = "*"
postcard = { version = "*", features = ["use-std"] }
ciborium = "*"
serde_yaml = "*"
rmp-serde = "*"
toml = "0.5"
ron = "0.8"
bson = "2"
serde_qs = "*"
flexbuffers = "*"
