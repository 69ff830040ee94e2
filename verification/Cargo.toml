[package]
name = "bloom"
version = "0.1.0"
edition = "2021"
publish = false

[dependencies]
tiny-keccak = { version = "2", features = ["keccak"] }
rlp = "0.4"
rustc-hex = "2"
ethereum-types = "0.9"
parking_lot = "0.11"
serde = { version = "1", features = ["derive"] }
serde_json = "1"
structopt = "0.3"
log = "0.4"
env_logger = "0.7"
ctrlc = "3"
jsonrpc-core = "14"
jsonrpc-derive = "14"
jsonrpc-pubsub = "14"
jsonrpc-tcp-server = "14"
