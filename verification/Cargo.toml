[package]
name = "r1cs_prover"
version = "0.1.0"
edition = "2021"
publish = false

[dependencies]
curve25519-dalek = { version = "4", features = ["rand_core"] }
merlin = "3"
rand = "0.8"
