[package]
name = "pixel_ingest"
version = "0.1.0"
edition = "2021"
publish = false

[dependencies]
pyo3 = "*"
rayon = "*"
ssimulacra2 = "*"
thiserror = "*"
