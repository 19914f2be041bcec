[package]
name = "jsonic"
version = "0.1.0"
edition = "2021"
publish = false

[dependencies]
jsonc-parser = { version = "0.26", features = ["cst", "serde"] }
serde_json = { version = "=1.0.154", features = ["preserve_order"] }
once_cell = "=1.21.4"
