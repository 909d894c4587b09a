//! Verified state model of the CarbonLedger contracts: a registry of carbon
//! projects, tokenized credit batches with permanent retirement, a
//! marketplace for whole-batch listings, and an oracle for monitoring data
//! and benchmark prices.
//!
//! Each contract is a value holding its ledger state; its operations are
//! methods whose contracts are stated over a mathematical model (`@`).
//! Authorization, ledger reads and writes, events and cross-contract calls
//! belong to the host: callers hand in the authenticated caller, the
//! current ledger sequence, and carry out the settlement a purchase returns.

pub mod error;
pub mod address;
pub mod keyed;
pub mod id_index;
pub mod credit;
pub mod registry;
pub mod oracle;
pub mod marketplace;
pub mod mock;
