[package]
name = "spartan"
version = "0.1.0"
edition = "2021"
publish = false

[dependencies]
ark-bls12-381 = "=0.3.0"
ark-ec = "=0.3.0"
ark-ff = "=0.3.0"
ark-serialize = { version = "=0.3.0", features = ["derive"] }
ark-std = "=0.3.0"
digest = "=0.8.1"
merlin = "=3.0.0"
rand_chacha = "=0.3.1"
sha3 = "=0.8.2"
