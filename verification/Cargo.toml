[package]
name = "flatrows"
version = "0.1.0"
edition = "2021"
publish = false

[dependencies]
dashmap = "=6.2.1"
rayon = "=1.12.0"
rand = "=0.9.5"
quick-xml = "=0.42.0"
arrow = { version = "=60.0.0", default-features = false }
parquet = { version = "=60.0.0", default-features = false, features = ["arrow", "snap"] }
serde = { version = "1", features = ["derive"] }
toml = "*"
