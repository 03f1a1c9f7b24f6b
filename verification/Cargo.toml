[package]
name = "serde_extract"
version = "0.1.0"
edition = "2021"
publish = false

[dependencies]
serde = "1"
serde_serializer_quick_unsupported = "*"
