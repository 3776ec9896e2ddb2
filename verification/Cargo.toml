[package]
name = "zcash_client_memory"
version = "0.1.0"
edition = "2021"
publish = false

[dependencies]
zcash_primitives = { version = "=0.31.0", features = ["transparent-inputs"] }
zcash_protocol = "=0.11.0"
zcash_keys = { version = "=0.17.0", features = ["transparent-inputs"] }
zcash_address = "=0.14.0"
zcash_transparent = { version = "=0.11.0", features = ["transparent-inputs"] }
zcash_script = "=0.6.0"
zip32 = "=0.3.0"
sapling-crypto = "=0.9.0"
orchard = "=0.16.0"
incrementalmerkletree = "=0.9.0"
jubjub = "=0.11.1"
prost = "=0.14.4"
serde = { version = "=1.0.229", features = ["derive"] }
serde_with = "=3.24.0"
thiserror = "=2.0.21"
secrecy = "=0.10.3"
subtle = "=2.6.1"
nonempty = "=0.12.0"
