[package]
name = "snowflake_semantic_view_validator"
version = "0.1.0"
edition = "2021"
publish = false

[dependencies]
clap = { version = "*", features = ["derive"] }
colored = "*"
serde = { version = "*", features = ["derive"] }
serde_yaml = "*"
termcolor = "*"
