[package]
name = "rsomics-adf-test"
version = "0.1.0"
edition = "2021"
publish = false

[dependencies]
clap = { version = "=4.6.7", features = ["derive"] }
serde = { version = "=1.0.229", features = ["derive"] }
nalgebra = "=0.35.0"
fast-float2 = "=0.2.4"
rsomics-common = "=0.12.3"
