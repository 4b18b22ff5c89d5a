//! Operation dispatch for a staking / vesting smart-contract pair.
//!
//! The crate converts token amounts between the human-facing decimal (major)
//! representation and the integer base-unit (minor) representation, catalogs
//! every supported contract operation with its default fee policy, builds the
//! exact execute payload each operation requires, and drives the
//! sign-broadcast pipeline as a step function that an unverified runner can
//! iterate: resolve the contract address, build the message, attach funds,
//! invoke the signing client, and classify the outcome (retrying a stale
//! sequence number exactly once).

pub mod amount;
pub mod delegation;
pub mod digits;
pub mod dispatch;
pub mod message;
pub mod operation;
pub mod resolver;
