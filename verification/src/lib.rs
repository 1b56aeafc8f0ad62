//! Core logic of an Ethereum transaction gateway: exact decimal conversion
//! between human-readable token amounts and scaled on-chain integers,
//! pre-flight balance and allowance guards, call-data assembly for ERC-20
//! and disperse/collect contract calls, and transaction preparation.
//!
//! ABI encoding, RLP encoding and signing are delegated to an external
//! Ethereum library behind trusted wrappers; JSON-RPC transport and the
//! HTTP layer live outside this crate.
pub mod digits;
pub mod chars;
pub mod amount;
pub mod errors;
pub mod convert;
pub mod address;
pub mod hexutil;
pub mod tx;
pub mod checks;
pub mod erc20;
pub mod disperse_collect;
pub mod pipeline;
