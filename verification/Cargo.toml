[package]
name = "rand_xoshiro"
version = "0.1.0"
edition = "2021"
publish = false

[dependencies]
rand_core = "0.9"
serde = { version = "1", features = ["derive"] }
