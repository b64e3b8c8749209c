[package]
name = "enclave-usercalls"
version = "0.1.0"
edition = "2021"
publish = false

[dependencies]
failure = "0.1"
fnv = "1.0"
fortanix-sgx-abi = "0.3"
futures = "0.3"
lazy_static = "1"
libc = "0.2"
nix = { version = "0.26", features = ["signal"] }
sgxs = "*"
