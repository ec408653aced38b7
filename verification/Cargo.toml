[package]
name = "sigma_protocol_standard"
version = "0.1.0"
edition = "2021"
publish = false

[dependencies]
ark-ec = "0.3"
ark-ff = "0.3"
ark-serialize = "0.3"
ark-std = "0.3"
ark-bls12-377 = "0.3"
digest = "0.9"
blake2 = "0.9"
rand = "0.8"
