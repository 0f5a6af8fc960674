[package]
name = "reconnaissance"
version = "0.1.0"
edition = "2021"
publish = false

[dependencies]
async-trait = "0.1"
ethers = { version = "=2.0.14", default-features = false }
fdlimit = "0.2.1"
futures = "0.3"
rand = "0.8"
secp256k1 = { version = "0.27", features = ["rand-std"] }
tokio = { version = "1", features = ["full"] }
