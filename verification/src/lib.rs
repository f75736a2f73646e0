//! Turns the on-chain activity of one address into ledger splits.
//!
//! Two paginated event streams are collected and merged by transaction hash,
//! the merged transactions are annotated from an address mapping, and the
//! result is turned into signed ledger splits.
//!
//! Every executable function carries a contract that Verus proves. The calls
//! into other crates stand in a few small wrappers whose contracts are
//! stated and believed, not proved; each says which function it calls.

pub mod blockchain;
pub mod calendar;
pub mod export;
pub mod merge;
pub mod pagination;
pub mod price;
pub mod primitives;
pub mod text;
pub mod tokens;
