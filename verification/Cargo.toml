[package]
name = "paillier_ring"
version = "0.1.0"
edition = "2021"
publish = false

[dependencies]
kzen-paillier = "=0.4.3"
serde_json = "=1.0.151"
clap = { version = "=4.6.7", features = ["derive"] }
anyhow = "=1.0.104"
curv-kzen = "=0.10.0"
