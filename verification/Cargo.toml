[package]
name = "atom_engine"
version = "0.1.0"
edition = "2021"
publish = false

[dependencies]
anyhow = "1"
arrow = { version = "*", default-features = false, features = ["ipc"] }
arrow-flight = "*"
futures = "0.3"
parquet = { version = "*", default-features = false, features = ["arrow"] }
petgraph = "0.6"
rayon = "1"
rustc_apfloat = "0.2"
tonic = "*"
