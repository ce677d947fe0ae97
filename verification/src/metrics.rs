//! Counters of what the node has done.
use vstd::prelude::*;

verus! {

/// `x + 1` modulo 2^64, as an atomic increment behaves.
pub open spec fn bumped(x: u64) -> u64 {
    vstd::wrapping::u64_specs::wrapping_add(x, 1)
}

/// The node's counters.
#[derive(Clone, Copy, Debug)]
pub struct Metrics {
    pub txs_received: u64,
    pub txs_executed: u64,
    pub txs_failed: u64,
    pub blocks_produced: u64,
    pub batches_submitted: u64,
    pub batches_failed: u64,
}

impl Metrics {
    /// All counters at zero.
    pub fn new() -> (r: Self)
        ensures
            r.txs_received == 0,
            r.txs_executed == 0,
            r.txs_failed == 0,
            r.blocks_produced == 0,
            r.batches_submitted == 0,
            r.batches_failed == 0,
    {
        Metrics {
            txs_received: 0,
            txs_executed: 0,
            txs_failed: 0,
            blocks_produced: 0,
            batches_submitted: 0,
            batches_failed: 0,
        }
    }

    /// Counts a received transaction.
    pub fn inc_txs_received(&mut self)
        ensures
            *final(self) == (Metrics { txs_received: bumped(old(self).txs_received), ..*old(self) }),
    {
        self.txs_received = self.txs_received.wrapping_add(1);
    }

    /// Counts an executed transaction.
    pub fn inc_txs_executed(&mut self)
        ensures
            *final(self) == (Metrics { txs_executed: bumped(old(self).txs_executed), ..*old(self) }),
    {
        self.txs_executed = self.txs_executed.wrapping_add(1);
    }

    /// Counts a failed transaction.
    pub fn inc_txs_failed(&mut self)
        ensures
            *final(self) == (Metrics { txs_failed: bumped(old(self).txs_failed), ..*old(self) }),
    {
        self.txs_failed = self.txs_failed.wrapping_add(1);
    }

    /// Counts a produced block.
    pub fn inc_blocks_produced(&mut self)
        ensures
            *final(self) == (Metrics { blocks_produced: bumped(old(self).blocks_produced), ..*old(self) }),
    {
        self.blocks_produced = self.blocks_produced.wrapping_add(1);
    }

    /// Counts a batch submitted to the L1.
    pub fn inc_batches_submitted(&mut self)
        ensures
            *final(self) == (Metrics { batches_submitted: bumped(old(self).batches_submitted), ..*old(self) }),
    {
        self.batches_submitted = self.batches_submitted.wrapping_add(1);
    }

    /// Counts a batch the L1 did not take.
    pub fn inc_batches_failed(&mut self)
        ensures
            *final(self) == (Metrics { batches_failed: bumped(old(self).batches_failed), ..*old(self) }),
    {
        self.batches_failed = self.batches_failed.wrapping_add(1);
    }

    /// A copy of the counters, taken at once.
    pub fn snapshot(&self) -> (r: Metrics)
        ensures
            r == *self,
    {
        *self
    }

    /// Whether any transaction has been settled either way, so that a success
    /// rate can be given.
    pub fn has_settled_txs(&self) -> (r: bool)
        ensures
            r == (self.txs_executed + self.txs_failed > 0),
    {
        self.txs_executed > 0 || self.txs_failed > 0
    }
}

/// A counter after `n` increments, each as `bumped` makes it.
pub open spec fn bumped_times(x: u64, n: nat) -> u64
    decreases n,
{
    if n == 0 {
        x
    } else {
        bumped(bumped_times(x, (n - 1) as nat))
    }
}

/// No increment is lost: a counter at `x` that is incremented `n` times (each
/// call steps it by one and leaves the other counters alone) ends at
/// `x + n` modulo 2^64.
pub proof fn law_increments_add_up(x: u64, n: nat)
    ensures
        bumped_times(x, n) == (x + n) % 0x1_0000_0000_0000_0000,
    decreases n,
{
    if n > 0 {
        law_increments_add_up(x, (n - 1) as nat);
        let y = bumped_times(x, (n - 1) as nat);
        let k = x + n - 1;
        assert(y == k % 0x1_0000_0000_0000_0000);
        assert((k % 0x1_0000_0000_0000_0000 + 1) % 0x1_0000_0000_0000_0000 == (k + 1) % 0x1_0000_0000_0000_0000) by {
            vstd::arithmetic::div_mod::lemma_add_mod_noop(k, 1, 0x1_0000_0000_0000_0000);
        }
    }
}

} // verus!
