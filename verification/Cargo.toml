[package]
name = "vector_db"
version = "0.1.0"
edition = "2021"
publish = false

[dependencies]
instant-distance = "*"
nalgebra = "*"
candid = "*"
ic-cdk = "*"
ic-cdk-macros = "*"
serde = { version = "*", features = ["derive"] }
serde_json = "*"
