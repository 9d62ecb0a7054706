//! Core of a price-oracle aggregation service: verified per-feed time
//! indexes, the query rules over them, attestation checks and governance.

pub mod types;
pub mod store;
pub mod engine;
pub mod rest;
pub mod governance;
pub mod codec;
