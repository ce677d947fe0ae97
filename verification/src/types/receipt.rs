//! Receipts of executed transactions.
use vstd::prelude::*;

use crate::outside::utc_now;
use crate::types::pubkey::Timestamp;

verus! {

/// The fee charged for a transaction that succeeds.
pub const SUCCESS_GAS: u64 = 5000;

/// The outcome of one transaction in one block.
#[derive(Clone, Debug)]
pub struct TxReceipt {
    pub tx_id: String,
    pub block_number: u64,
    pub block_hash: String,
    pub tx_index: usize,
    pub success: bool,
    pub error: Option<String>,
    pub gas_used: u64,
    pub executed_at: Timestamp,
    pub logs: Vec<String>,
}

impl TxReceipt {
    /// The receipt of a transaction that ran, with its logs, executed now.
    pub fn success(tx_id: String, block_number: u64, block_hash: String, tx_index: usize, logs: Vec<String>) -> (r: Self)
        ensures
            r.tx_id == tx_id,
            r.block_number == block_number,
            r.block_hash == block_hash,
            r.tx_index == tx_index,
            r.success,
            r.error is None,
            r.gas_used == SUCCESS_GAS,
            r.logs == logs,
    {
        TxReceipt {
            tx_id,
            block_number,
            block_hash,
            tx_index,
            success: true,
            error: None,
            gas_used: SUCCESS_GAS,
            executed_at: utc_now(),
            logs,
        }
    }

    /// The receipt of a transaction that failed for `reason`, executed now; it
    /// uses no gas and has no logs.
    pub fn failure(tx_id: String, block_number: u64, block_hash: String, tx_index: usize, reason: String) -> (r: Self)
        ensures
            r.tx_id == tx_id,
            r.block_number == block_number,
            r.block_hash == block_hash,
            r.tx_index == tx_index,
            !r.success,
            r.error == Some(reason),
            r.gas_used == 0,
            r.logs@.len() == 0,
    {
        TxReceipt {
            tx_id,
            block_number,
            block_hash,
            tx_index,
            success: false,
            error: Some(reason),
            gas_used: 0,
            executed_at: utc_now(),
            logs: Vec::new(),
        }
    }
}

} // verus!
