[package]
name = "polkadot_node"
version = "0.1.0"
edition = "2021"
publish = false

[dependencies]
exit-future = "0.1"
futures = "0.1"
lazy_static = "1"
log = "0.4"
parking_lot = "0.12"
tokio = "0.1"
twox-hash = "=1.6.3"
wasmi = "0.13"

[dev-dependencies]
serde_json = "1"
