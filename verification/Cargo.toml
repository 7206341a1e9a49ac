[package]
name = "adeck_parser"
version = "0.1.0"
edition = "2021"
publish = false

[dependencies]
arrow = { version = "=60.0.0", default-features = false, features = ["pyarrow"] }
pyo3 = "*"
serde = { version = "=1.0.229", features = ["derive"] }
serde_json = "=1.0.154"
