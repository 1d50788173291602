[package]
name = "lumiere"
version = "0.1.0"
edition = "2021"
publish = false

[dependencies]
rand = { version = "0.8", features = ["small_rng"] }
rayon = "1"
indicatif = "0.16"
png = "0.17"
