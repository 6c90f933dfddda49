[package]
name = "monty"
version = "0.1.0"
edition = "2021"
rust-version = "1.95"
publish = false

[dependencies]
ahash = "=0.8.12"
hashbrown = "=0.15.5"
indexmap = "=2.14.2"
memchr = "=2.8.3"
smallvec = "=1.16.4"
ruff_python_ast = ">=0.0.1, <=0.0.8"
ruff_python_parser = ">=0.0.1, <=0.0.8"
serde = { version = "=1.0.229", features = ["derive"] }
