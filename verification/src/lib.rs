//! Core logic of a small gossip node: a transaction pool keyed by Keccak-256
//! digests, the peer table and packet handling of the `blo` sub-protocol,
//! the bookkeeping behind the JSON-RPC interface, and the plans that the
//! command line turns into a running server or a single client request.

pub mod commands;
pub mod hash;
pub mod hello;
pub mod hex;
pub mod rpc;
pub mod server;
pub mod text;
pub mod txpool;
