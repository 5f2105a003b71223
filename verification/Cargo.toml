[package]
name = "canistore_core"
version = "0.1.0"
edition = "2021"
publish = false

[dependencies]
ic-certified-map = "*"
hex = "*"
crc32fast = "*"
candid = "*"
ciborium = "*"
serde = "*"
serde_bytes = "*"
serde_cbor = "*"
serde_json = "*"
ic-cdk = "*"
ic-cdk-timers = "*"
ic-ledger-types = "*"
icrc-ledger-types = "*"
ic-stable-structures = "*"
num-traits = "*"
