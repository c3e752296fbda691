[package]
name = "chachamir"
version = "0.1.0"
edition = "2021"
publish = false

[dependencies]
chacha20poly1305 = "=0.9.1"
clap = { version = "=3.2.25", features = ["derive"] }
ed25519-dalek = "=1.0.1"
glob = "=0.3.4"
hex = "=0.4.3"
infer = "=0.22.0"
path-clean = "=1.0.1"
rand = "=0.7.3"
sharks = "=0.5.0"
zeroize = "=1.3.0"
