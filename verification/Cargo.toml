[package]
name = "gaggle"
version = "0.1.0"
edition = "2021"
publish = false

[dependencies]
ctrlc = "=3.5.2"
lazy_static = "=1.5.1"
log = "=0.4.35"
nng = { version = "=0.5.1", default-features = false }
serde = { version = "=1.0.229", features = ["derive"] }
serde_cbor = "=0.11.2"
