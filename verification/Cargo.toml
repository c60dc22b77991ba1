[package]
name = "runar_values"
version = "0.1.0"
edition = "2021"
publish = false

[dependencies]
bincode = "1"
serde = { version = "1", features = ["derive"] }
rand = "0.9"
anyhow = "1"
