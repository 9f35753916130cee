[package]
name = "zebra-batch-equivalence"
version = "0.1.0"
edition = "2021"
publish = false

[dependencies]
bellman = "=0.15.0"
groth16 = "=0.2.0"
bls12_381 = "=0.9.0"
group = "=0.14.0"
jubjub = "=0.11.1"
blake2b_simd = "=1.0.5"
rand = "=0.10.3"
orchard = "=0.16.0"
sapling-crypto = "=0.9.0"
zebra-chain = "=15.0.0"
zcash_protocol = "=0.11.0"
tower-batch-control = "=1.1.1"
tower = "=0.4.13"
tokio = { version = "=1.54.1", features = ["sync", "rt", "rt-multi-thread", "macros", "time"] }
futures = "=0.3.34"
