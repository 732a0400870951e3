[package]
name = "column_store"
version = "0.1.0"
edition = "2021"
publish = false

[dependencies]
ulid = "*"
fd-lock = "*"

[dev-dependencies]
tempfile = "*"
