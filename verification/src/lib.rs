//! Analytics over Ethereum-style block data: timing, gas-market metrics,
//! transaction-type composition and ordering, heuristic MEV indicators and
//! proposer-builder-separation attribution, assembled into an immutable
//! `BlockLifecycle` record per block.
//!
//! The analysis pipeline is pure and deterministic. All on-chain amounts are
//! kept as integer wei; rendering to decimal unit strings is exact and
//! verified. Network fetching, floating-point display and file output live
//! outside this crate.

pub mod analyzer;
pub mod codec;
pub mod exporter;
pub mod text;
pub mod types;
pub mod units;
