[package]
name = "pake_serial"
version = "0.1.0"
edition = "2021"
publish = false

[dependencies]
aucpace = { version = "=0.1.1", features = ["alloc", "serde", "strong_aucpace"] }
clap = { version = "=4.6.7", features = ["derive"] }
curve25519-dalek = "=4.1.3"
password-hash = "=0.5.0"
postcard = { version = "=1.1.3", features = ["use-std"] }
rand_chacha = "=0.3.1"
rand_core = "=0.6.4"
scrypt = "=0.11.0"
sha2 = "=0.10.9"
