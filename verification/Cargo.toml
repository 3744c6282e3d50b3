[package]
name = "openapi-lint"
version = "0.1.0"
edition = "2021"
publish = false

[dependencies]
heck = "*"
indexmap = "*"
openapiv3 = "*"
regex = "*"
serde_json = "*"
serde_yaml = "*"
