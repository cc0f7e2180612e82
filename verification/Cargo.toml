[package]
name = "openapi2mcp"
version = "0.1.0"
edition = "2021"
publish = false

[dependencies]
regex = "*"
openapiv3 = "*"
serde_json = "*"
serde_yaml = "*"
clap = { version = "*", features = ["derive"] }
