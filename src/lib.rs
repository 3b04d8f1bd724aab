//! Authorization core for Common Access Tokens: the denylist snapshot and its
//! queries, the per-claim validators and the validation pipeline.

pub mod cat;
pub mod cbor;
pub mod claims;
pub mod error;
pub mod kv;
pub mod laws;
pub mod matching;
pub mod minting;
pub mod models;
pub mod network;
pub mod persistence;
pub mod sorted;
pub mod text;
pub mod wire;
