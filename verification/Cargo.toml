[package]
name = "sdkgen"
version = "0.1.0"
edition = "2021"
publish = false

[dependencies]
heck = "0.3"
indexmap = "2"
openapiv3 = "1.0"
serde = { version = "1", features = ["derive"] }
serde_yaml = "0.9"
