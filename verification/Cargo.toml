[package]
name = "game_simulations"
version = "0.1.0"
edition = "2021"
publish = false

[dependencies]
rand = "0.8"
rayon = "1"
pyo3 = { version = "0.20", features = ["extension-module"] }
