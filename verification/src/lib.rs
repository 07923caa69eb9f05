//! A local, deterministic simulator of a blockchain's smart-contract
//! execution layer.
//!
//! The crate lets a test harness deploy, initialize, update and query
//! WebAssembly smart contracts without a live network, replaying the
//! cost-accounting and state-transition rules a production chain applies.
//! The low-level Wasm interpreter and validator are consumed as black boxes
//! through the trusted declarations in [`engine`]; everything else — account
//! and module bookkeeping, energy metering, fee conversion, and the staged
//! change sets of the invocation engine — is verified.

pub mod energy;
pub mod engine;
pub mod types;
pub mod ledger;
pub mod chain;
pub mod changeset;
pub mod invocation;
