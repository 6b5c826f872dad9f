[package]
name = "poh_finality"
version = "0.1.0"
edition = "2021"
publish = false

[dependencies]
sha2 = "0.10"
bincode = "1"
serde = { version = "1", features = ["derive"] }
