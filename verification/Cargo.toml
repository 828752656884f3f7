[package]
name = "verifiable_ring"
version = "0.1.0"
edition = "2021"
publish = false

[dependencies]
hex = "=0.4.3"
sp-core = "=43.0.0"
sp-crypto-hashing = "=0.1.0"
parity-scale-codec = { version = "=3.7.5", features = ["derive"] }
scale-info = { version = "=2.11.6", features = ["derive"] }
serde = { version = "=1.0.229", features = ["derive"] }
log = "=0.4.34"
jsonrpsee = { version = "=0.26.1", features = ["server", "macros", "client-core"] }
verifiable = "=0.4.1"
