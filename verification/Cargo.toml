[package]
name = "drone_optimizer"
version = "0.1.0"
edition = "2021"
publish = false

[dependencies]
pyo3 = "0.20"
rayon = "1"
serde = { version = "1", features = ["derive"] }
smartcore = "0.3"
