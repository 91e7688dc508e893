[package]
name = "fp_blackbox"
version = "0.1.0"
edition = "2021"
publish = false

[dependencies]
ark-ec = "0.5"
ark-ff = "0.5"
ark-poly = "0.5"
ark-serialize = "0.5"
ark-std = { version = "0.5", features = ["std"] }
ark-bls12-381 = "0.5"
blake3 = "1"
