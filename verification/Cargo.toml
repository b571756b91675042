[package]
name = "upsert_compile"
version = "0.1.0"
edition = "2021"
publish = false

[dependencies]
turso_parser = "*"
