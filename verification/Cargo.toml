[package]
name = "simulator"
version = "0.1.0"
edition = "2021"
publish = false

[dependencies]
rand = { version = "0.8", features = ["small_rng"] }
zipf = "*"
serde = { version = "1", features = ["derive"] }
toml = "*"
