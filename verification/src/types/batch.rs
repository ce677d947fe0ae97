//! Batches of blocks bound for the L1.
use vstd::prelude::*;

use crate::outside::utc_now;
use crate::types::block::L2Block;
use crate::types::pubkey::Timestamp;

verus! {

/// Where a batch stands with the L1.
#[derive(Clone, Debug, PartialEq, Eq)]
pub enum BatchStatus {
    Pending,
    Submitted { l1_signature: String },
    Confirmed { l1_slot: u64 },
    Failed(String),
}

/// What is known of a batch at sealing time.
#[derive(Clone, Copy, Debug)]
pub struct BatchMeta {
    pub batch_number: u64,
    pub first_block: u64,
    pub last_block: u64,
    pub total_txs: usize,
    pub sealed_at: Timestamp,
    pub compressed_bytes: usize,
}

/// A sealed batch of blocks.
#[derive(Clone, Debug)]
pub struct L2Batch {
    pub meta: BatchMeta,
    pub blocks: Vec<L2Block>,
    pub status: BatchStatus,
}

/// The number of transactions in a run of blocks.
pub open spec fn spec_total_txs(blocks: Seq<L2Block>) -> nat
    decreases blocks.len(),
{
    if blocks.len() == 0 {
        0
    } else {
        spec_total_txs(blocks.drop_last()) + blocks.last().transactions@.len()
    }
}

/// The number of the first block of a run, or 0 for none.
pub open spec fn spec_first_number(blocks: Seq<L2Block>) -> u64 {
    if blocks.len() == 0 { 0 } else { blocks[0].header.number }
}

/// The number of the last block of a run, or 0 for none.
pub open spec fn spec_last_number(blocks: Seq<L2Block>) -> u64 {
    if blocks.len() == 0 { 0 } else { blocks.last().header.number }
}

/// Counts the transactions of a run of blocks.
pub fn total_txs(blocks: &Vec<L2Block>) -> (r: usize)
    requires
        spec_total_txs(blocks@) <= usize::MAX,
    ensures
        r == spec_total_txs(blocks@),
{
    let mut total: usize = 0;
    let mut i: usize = 0;
    while i < blocks.len()
        invariant
            i <= blocks@.len(),
            total == spec_total_txs(blocks@.subrange(0, i as int)),
            spec_total_txs(blocks@) <= usize::MAX,
        decreases blocks@.len() - i,
    {
        proof {
            lemma_total_txs_prefix_mono(blocks@, (i + 1) as int);
            assert(blocks@.subrange(0, i + 1).drop_last() =~= blocks@.subrange(0, i as int));
        }
        total = total + blocks[i].tx_count();
        i = i + 1;
    }
    assert(blocks@.subrange(0, blocks@.len() as int) =~= blocks@);
    total
}

/// A prefix of a run holds no more transactions than the run.
pub proof fn lemma_total_txs_prefix_mono(blocks: Seq<L2Block>, n: int)
    requires
        0 <= n <= blocks.len(),
    ensures
        spec_total_txs(blocks.subrange(0, n)) <= spec_total_txs(blocks),
    decreases blocks.len() - n,
{
    if n < blocks.len() {
        lemma_total_txs_prefix_mono(blocks, n + 1);
        assert(blocks.subrange(0, n + 1).drop_last() =~= blocks.subrange(0, n));
    } else {
        assert(blocks.subrange(0, n) =~= blocks);
    }
}

impl L2Batch {
    /// Seals the blocks into a pending batch, now.
    pub fn new(batch_number: u64, blocks: Vec<L2Block>, compressed_bytes: usize) -> (r: Self)
        requires
            spec_total_txs(blocks@) <= usize::MAX,
        ensures
            r.meta.batch_number == batch_number,
            r.meta.first_block == spec_first_number(blocks@),
            r.meta.last_block == spec_last_number(blocks@),
            r.meta.total_txs == spec_total_txs(blocks@),
            r.meta.compressed_bytes == compressed_bytes,
            r.blocks == blocks,
            r.status == BatchStatus::Pending,
    {
        let first_block = if blocks.len() == 0 { 0 } else { blocks[0].header.number };
        let last_block = if blocks.len() == 0 { 0 } else { blocks[blocks.len() - 1].header.number };
        let total = total_txs(&blocks);
        L2Batch {
            meta: BatchMeta {
                batch_number,
                first_block,
                last_block,
                total_txs: total,
                sealed_at: utc_now(),
                compressed_bytes,
            },
            blocks,
            status: BatchStatus::Pending,
        }
    }
}

} // verus!
