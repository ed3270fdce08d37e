[package]
name = "ahp_prover"
version = "0.1.0"
edition = "2021"
publish = false

[dependencies]
rand = "=0.10.3"
snarkvm-curves = "=4.11.0"
snarkvm-fields = "=4.11.0"
snarkvm-utilities = "=4.11.0"
