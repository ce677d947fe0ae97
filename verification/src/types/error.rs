//! The errors of the rollup.
use vstd::prelude::*;

use crate::codec::{spec_decimal, u64_to_decimal};

verus! {

/// Everything that can go wrong in the rollup.
#[derive(Clone, Debug, PartialEq, Eq)]
pub enum ClutchError {
    InvalidSignature,
    InsufficientFunds { needed: u64, available: u64 },
    InvalidNonce { expected: u64, got: u64 },
    UnknownInstruction(String),
    TxNotFound(String),
    AccountNotFound(String),
    StateRootError(String),
    Storage(String),
    Serialization(String),
    BatchChannelClosed,
    L1SubmissionFailed(String),
    InvalidPubkey(String),
    InvalidEncoding(String),
}

/// The text of an error.
pub open spec fn spec_error_message(e: ClutchError) -> Seq<char> {
    match e {
        ClutchError::InvalidSignature => "Invalid transaction signature"@,
        ClutchError::InsufficientFunds { needed, available } => "Insufficient funds: need "@
            + spec_decimal(needed as nat) + ", have "@ + spec_decimal(available as nat),
        ClutchError::InvalidNonce { expected, got } => "Invalid nonce: expected "@ + spec_decimal(
            expected as nat,
        ) + ", got "@ + spec_decimal(got as nat),
        ClutchError::UnknownInstruction(s) => "Unknown transaction kind: "@ + s@,
        ClutchError::TxNotFound(s) => "Transaction not found: "@ + s@,
        ClutchError::AccountNotFound(s) => "Account not found: "@ + s@,
        ClutchError::StateRootError(s) => "State root computation failed: "@ + s@,
        ClutchError::Storage(s) => "Storage error: "@ + s@,
        ClutchError::Serialization(s) => "Serialization error: "@ + s@,
        ClutchError::BatchChannelClosed => "Batch channel closed"@,
        ClutchError::L1SubmissionFailed(s) => "L1 submission failed: "@ + s@,
        ClutchError::InvalidPubkey(s) => "Invalid public key: "@ + s@,
        ClutchError::InvalidEncoding(s) => "Invalid transaction encoding: "@ + s@,
    }
}

/// `prefix` followed by `rest`.
fn joined(prefix: &str, rest: &str) -> (r: String)
    ensures
        r@ == prefix@ + rest@,
{
    let mut r = String::from_str(prefix);
    r.append(rest);
    r
}

impl ClutchError {
    /// The error's text, as the node reports it.
    pub fn message(&self) -> (r: String)
        ensures
            r@ == spec_error_message(*self),
    {
        match self {
            ClutchError::InvalidSignature => String::from_str("Invalid transaction signature"),
            ClutchError::InsufficientFunds { needed, available } => {
                let mut r = joined("Insufficient funds: need ", u64_to_decimal(*needed).as_str());
                r.append(", have ");
                r.append(u64_to_decimal(*available).as_str());
                r
            },
            ClutchError::InvalidNonce { expected, got } => {
                let mut r = joined("Invalid nonce: expected ", u64_to_decimal(*expected).as_str());
                r.append(", got ");
                r.append(u64_to_decimal(*got).as_str());
                r
            },
            ClutchError::UnknownInstruction(s) => joined("Unknown transaction kind: ", s.as_str()),
            ClutchError::TxNotFound(s) => joined("Transaction not found: ", s.as_str()),
            ClutchError::AccountNotFound(s) => joined("Account not found: ", s.as_str()),
            ClutchError::StateRootError(s) => joined("State root computation failed: ", s.as_str()),
            ClutchError::Storage(s) => joined("Storage error: ", s.as_str()),
            ClutchError::Serialization(s) => joined("Serialization error: ", s.as_str()),
            ClutchError::BatchChannelClosed => String::from_str("Batch channel closed"),
            ClutchError::L1SubmissionFailed(s) => joined("L1 submission failed: ", s.as_str()),
            ClutchError::InvalidPubkey(s) => joined("Invalid public key: ", s.as_str()),
            ClutchError::InvalidEncoding(s) => joined("Invalid transaction encoding: ", s.as_str()),
        }
    }
}

} // verus!
