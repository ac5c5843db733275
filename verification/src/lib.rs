//! Deterministic core of a Bitcoin ordinal/inscription indexer.
//!
//! Three consensus-critical pieces live here, each a pure computation:
//! the satoshi rarity engine (`rarity`), the inscription operation ledger
//! records (`operation`), and the BRC-20 operation decoder with its
//! hard-fork policy table (`json`, `brc20`, `policies`). The `api` module
//! holds the records an HTTP collaborator serializes for queries.

pub mod api;
pub mod brc20;
pub mod json;
pub mod operation;
pub mod policies;
pub mod rarity;
