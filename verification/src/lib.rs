//! A verified core for a demo NFT marketplace: a deterministic
//! content-art pipeline (fingerprinting, rarity classification,
//! procedural image synthesis) and a marketplace ledger (ownership,
//! listings, transactions) with machine-checked invariants.

pub mod art;
pub mod b64;
pub mod digest;
pub mod fresh;
pub mod models;
pub mod numfmt;
pub mod rarity;
pub mod state;
pub mod strutil;
