[package]
name = "groth16_codec"
version = "0.1.0"
edition = "2021"
publish = false

[dependencies]
ark-ec = "0.3.0"
ark-ff = "0.3.0"
ark-serialize = { version = "0.3.0", features = ["derive"] }
ark-std = "0.3.0"
ark-bls12-381 = "0.3.0"
ark-bn254 = "0.3.0"
