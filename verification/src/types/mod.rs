//! The chain's domain types.
pub mod pubkey;
pub mod account;
pub mod transaction;
pub mod block;
pub mod batch;
pub mod receipt;
pub mod error;
