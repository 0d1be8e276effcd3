[package]
name = "homa_lite"
version = "0.1.0"
edition = "2021"
publish = false

[dependencies]
parity-scale-codec = "=3.7.5"
primitive-types = "=0.13.1"
ripemd160 = "=0.9.1"
sp-io = "=49.0.0"
sp-runtime = "=49.0.0"
tiny-keccak = { version = "=2.0.2", features = ["sha3"] }
