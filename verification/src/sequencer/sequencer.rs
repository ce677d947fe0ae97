//! The sequencer: drains the mempool into blocks, runs their transactions, and
//! seals runs of blocks into batches for the L1.
use vstd::prelude::*;

use crate::codec::{hex_encode, push_str_bytes, spec_hex_lower, spec_zero_hash, utf8_bytes, zero_hash};
use crate::mempool::mempool::{spec_drain, Mempool};
use crate::outside::{sha256, spec_sha256, utc_now};
use crate::runtime::runtime::{receipt_reports, spec_apply_tx, spec_run, Accounts, Runtime};
use crate::state::state_manager::{spec_map_root, StateManager};
use crate::storage::store::{batch_key, block_key, hex_digits, stored, Store};
use crate::types::batch::{spec_first_number, spec_last_number, spec_total_txs, BatchStatus, L2Batch};
use crate::types::block::{spec_header_hash, BlockHeader, BlockView, L2Block};
use crate::types::error::spec_error_message;
use crate::types::receipt::TxReceipt;
use crate::types::pubkey::Timestamp;
use crate::types::transaction::{L2Transaction, StatusView, TxStatus, TxView};

verus! {

/// How the sequencer paces and sizes its blocks and batches.
#[derive(Clone, Debug)]
pub struct SequencerConfig {
    pub block_interval_secs: u64,
    pub max_txs_per_block: usize,
    pub blocks_per_batch: usize,
    pub sequencer_id: String,
}

impl SequencerConfig {
    /// The defaults: a block every 2 seconds of at most 100 transactions, a
    /// batch every 5 blocks, sequencer "clutch-sequencer-0".
    pub fn default() -> (r: Self)
        ensures
            r.block_interval_secs == 2,
            r.max_txs_per_block == 100,
            r.blocks_per_batch == 5,
            r.sequencer_id@ == "clutch-sequencer-0"@,
    {
        SequencerConfig {
            block_interval_secs: 2,
            max_txs_per_block: 100,
            blocks_per_batch: 5,
            sequencer_id: String::from_str("clutch-sequencer-0"),
        }
    }
}

/// The views of a run of transactions.
pub open spec fn tx_views(txs: Seq<L2Transaction>) -> Seq<TxView> {
    txs.map_values(|t: L2Transaction| t@)
}

/// The ids of a run of transactions, their UTF-8 bytes one after another.
pub open spec fn spec_ids_bytes(txs: Seq<TxView>) -> Seq<u8>
    decreases txs.len(),
{
    if txs.len() == 0 {
        Seq::empty()
    } else {
        spec_ids_bytes(txs.drop_last()) + utf8_bytes(txs.last().id)
    }
}

/// The transaction root of a block: lowercase hex of the SHA-256 of its
/// transactions' ids, or sixty-four zeros for none.
pub open spec fn spec_tx_root(txs: Seq<TxView>) -> Seq<char> {
    if txs.len() == 0 {
        spec_zero_hash()
    } else {
        spec_hex_lower(spec_sha256(spec_ids_bytes(txs)))
    }
}

/// The transaction root of a run of transactions.
pub fn compute_tx_root(txs: &Vec<L2Transaction>) -> (r: String)
    ensures
        r@ == spec_tx_root(tx_views(txs@)),
{
    let ghost v = tx_views(txs@);
    let n = txs.len();
    if n == 0 {
        return zero_hash();
    }
    let mut all: Vec<u8> = Vec::new();
    let mut i: usize = 0;
    assert(v.take(0) =~= Seq::<TxView>::empty());
    while i < n
        invariant
            n == txs@.len(),
            v == tx_views(txs@),
            i <= n,
            all@ == spec_ids_bytes(v.take(i as int)),
        decreases n - i,
    {
        push_str_bytes(&mut all, txs[i].id.as_str());
        assert(v.take(i + 1).drop_last() =~= v.take(i as int));
        i = i + 1;
    }
    assert(v.take(n as int) =~= v);
    let digest = sha256(all.as_slice());
    hex_encode(digest.as_slice())
}

/// The accounts after running a run of transactions one after another.
pub open spec fn spec_apply_all(m: Accounts, txs: Seq<TxView>) -> Accounts
    decreases txs.len(),
{
    if txs.len() == 0 {
        m
    } else {
        spec_apply_tx(spec_apply_all(m, txs.drop_last()), txs.last())
    }
}

/// Some transaction of the run succeeds when they run one after another.
pub open spec fn spec_any_success(m: Accounts, txs: Seq<TxView>) -> bool
    decreases txs.len(),
{
    if txs.len() == 0 {
        false
    } else {
        spec_any_success(m, txs.drop_last()) || spec_run(spec_apply_all(m, txs.drop_last()), txs.last()) is Ok
    }
}

/// The status a transaction gets in its block: executed, or failed with the
/// error's text.
pub open spec fn spec_status_after(m: Accounts, tx: TxView) -> StatusView {
    match spec_run(m, tx) {
        Ok(_) => StatusView::Executed,
        Err(e) => StatusView::Failed(spec_error_message(e)),
    }
}

/// `t` is `tx` with the status it gets when run against `m`.
pub open spec fn executed_as(t: TxView, m: Accounts, tx: TxView) -> bool {
    t == TxView { status: spec_status_after(m, tx), ..tx }
}

/// `r` is the receipt of `tx`, run as transaction `idx` of the block numbered
/// `number` with hash `hash`, against the accounts `m`.
pub open spec fn receipt_of(r: TxReceipt, m: Accounts, tx: TxView, number: u64, hash: Seq<char>, idx: int) -> bool {
    &&& r.tx_id@ == tx.id
    &&& r.block_number == number
    &&& r.block_hash@ == hash
    &&& r.tx_index == idx
    &&& receipt_reports(r, m, tx)
}

/// Runs the transactions one after another, as block `number`; gives them back
/// with their new statuses, and their receipts (whose block hash is left empty,
/// as the block's hash is known only once they have run).
fn execute_block(
    runtime: &Runtime,
    state: &mut StateManager,
    txs: &Vec<L2Transaction>,
    number: u64,
) -> (r: (Vec<L2Transaction>, Vec<TxReceipt>))
    ensures
        ({
            let m0 = old(state).accounts();
            let v = tx_views(txs@);
            &&& r.0@.len() == txs@.len()
            &&& r.1@.len() == txs@.len()
            &&& forall|j: int| 0 <= j < v.len() ==> executed_as(#[trigger] r.0@[j]@, spec_apply_all(m0, v.take(j)), v[j])
            &&& forall|j: int| 0 <= j < v.len() ==> receipt_of(#[trigger] r.1@[j], spec_apply_all(m0, v.take(j)), v[j], number, Seq::empty(), j)
            &&& final(state).accounts() == spec_apply_all(m0, v)
            &&& final(state).root() == if spec_any_success(m0, v) { spec_map_root(final(state).accounts()) } else { old(state).root() }
        }),
{
    let ghost m0 = state.accounts();
    let ghost root0 = state.root();
    let ghost v = tx_views(txs@);
    let n = txs.len();
    let mut executed: Vec<L2Transaction> = Vec::new();
    let mut receipts: Vec<TxReceipt> = Vec::new();
    let mut i: usize = 0;
    assert(v.take(0) =~= Seq::<TxView>::empty());
    while i < n
        invariant
            n == txs@.len(),
            v == tx_views(txs@),
            i <= n,
            executed@.len() == i,
            receipts@.len() == i,
            forall|j: int| 0 <= j < i ==> executed_as(#[trigger] executed@[j]@, spec_apply_all(m0, v.take(j)), v[j]),
            forall|j: int| 0 <= j < i ==> receipt_of(#[trigger] receipts@[j], spec_apply_all(m0, v.take(j)), v[j], number, Seq::empty(), j),
            state.accounts() == spec_apply_all(m0, v.take(i as int)),
            state.root() == if spec_any_success(m0, v.take(i as int)) { spec_map_root(state.accounts()) } else { root0 },
        decreases n - i,
    {
        let ghost mi = state.accounts();
        assert(v.take(i + 1).drop_last() =~= v.take(i as int));
        assert(v.take(i + 1).last() == v[i as int]);
        let mut tx = txs[i].duplicate();
        let no_hash = "";
        proof {
            reveal_strlit("");
            assert(no_hash@ =~= Seq::<char>::empty());
        }
        let receipt = runtime.execute(state, &tx, number, no_hash, i);
        tx.status = if receipt.success {
            TxStatus::Executed
        } else {
            match &receipt.error {
                Some(msg) => TxStatus::Failed(msg.clone()),
                None => TxStatus::Failed(String::new()),
            }
        };
        assert(executed_as(tx@, mi, v[i as int]));
        executed.push(tx);
        receipts.push(receipt);
        i = i + 1;
    }
    assert(v.take(n as int) =~= v);
    (executed, receipts)
}

/// `b` is the receipt `a` with its block hash set to `hash`.
pub open spec fn rehashed(a: TxReceipt, b: TxReceipt, hash: Seq<char>) -> bool {
    &&& b.block_hash@ == hash
    &&& b == TxReceipt { block_hash: b.block_hash, ..a }
}

/// Sets the block hash of every receipt to `hash`.
fn stamp_block_hash(receipts: &mut Vec<TxReceipt>, hash: &String)
    ensures
        final(receipts)@.len() == old(receipts)@.len(),
        forall|j: int| 0 <= j < old(receipts)@.len() ==> rehashed(old(receipts)@[j], #[trigger] final(receipts)@[j], hash@),
{
    let n = receipts.len();
    let mut i: usize = 0;
    while i < n
        invariant
            n == receipts@.len(),
            n == old(receipts)@.len(),
            i <= n,
            forall|j: int| 0 <= j < i ==> rehashed(old(receipts)@[j], #[trigger] receipts@[j], hash@),
            forall|j: int| i <= j < n ==> #[trigger] receipts@[j] == old(receipts)@[j],
        decreases n - i,
    {
        receipts[i].block_hash = hash.clone();
        i = i + 1;
    }
}

/// What a new block amounts to, for the node to persist: its number, where its
/// receipts start among the sequencer's receipts, and whether a batch is due.
#[derive(Clone, Copy, Debug)]
pub struct Produced {
    pub number: u64,
    pub first_receipt: usize,
    pub batch_due: bool,
}

/// The sequencer's state.
pub struct Sequencer {
    config: SequencerConfig,
    height: Option<u64>,
    batch_number: Option<u64>,
    pending_blocks: Vec<L2Block>,
    latest_block: Option<L2Block>,
    latest_batch: Option<L2Batch>,
    receipts: Vec<TxReceipt>,
}

/// The number after an optional last one: 1 after none.
pub open spec fn next_number(last: Option<u64>) -> u64 {
    match last {
        Some(h) => (h + 1) as u64,
        None => 1,
    }
}

/// The hash a new block points back to: the latest block's, or sixty-four zeros.
pub open spec fn spec_parent_hash(latest: Option<L2Block>) -> Seq<char> {
    match latest {
        Some(b) => b.hash@,
        None => spec_zero_hash(),
    }
}

/// The key of block (or, when `blocks` is false, batch) number `n`.
pub open spec fn run_key(n: nat, blocks: bool) -> Seq<u8> {
    if blocks {
        seq![98u8, 108u8, 111u8, 99u8, 107u8, 58u8] + hex_digits(n, 16)
    } else {
        seq![98u8, 97u8, 116u8, 99u8, 104u8, 58u8] + hex_digits(n, 16)
    }
}

/// The values stored for blocks (or batches) `first` to `last`, in order,
/// skipping numbers with nothing stored.
pub open spec fn stored_run(m: Map<Seq<u8>, Seq<u8>>, first: nat, last: nat, blocks: bool) -> Seq<Seq<u8>>
    decreases last + 1 - first,
{
    if first > last {
        Seq::empty()
    } else {
        let rest = stored_run(m, first + 1, last, blocks);
        match stored(m, run_key(first, blocks)) {
            Some(v) => seq![v] + rest,
            None => rest,
        }
    }
}

/// Reads the values stored for blocks (or batches) `first` to `last`.
fn read_run(store: &Store, first: u64, last: u64, blocks: bool) -> (r: Vec<Vec<u8>>)
    requires
        first <= last,
    ensures
        r@.map_values(|v: Vec<u8>| v@) == stored_run(store.contents(), first as nat, last as nat, blocks),
{
    let ghost m = store.contents();
    let mut r: Vec<Vec<u8>> = Vec::new();
    let mut n: u64 = first;
    loop
        invariant_except_break
            r@.map_values(|v: Vec<u8>| v@) + stored_run(m, n as nat, last as nat, blocks)
                == stored_run(m, first as nat, last as nat, blocks),
        invariant
            first <= n <= last,
            m == store.contents(),
        ensures
            r@.map_values(|v: Vec<u8>| v@) == stored_run(m, first as nat, last as nat, blocks),
        decreases last - n,
    {
        let ghost before = r@.map_values(|v: Vec<u8>| v@);
        let key = if blocks { block_key(n) } else { batch_key(n) };
        assert(key@ == run_key(n as nat, blocks));
        let ghost rest = stored_run(m, (n + 1) as nat, last as nat, blocks);
        match store.get(key.as_slice()) {
            Some(v) => {
                r.push(v);
                assert(r@.map_values(|v: Vec<u8>| v@) =~= before + seq![v@]);
            },
            None => {},
        }
        assert(r@.map_values(|v: Vec<u8>| v@) + rest =~= before + stored_run(m, n as nat, last as nat, blocks));
        if n == last {
            assert(rest =~= Seq::<Seq<u8>>::empty());
            assert(r@.map_values(|v: Vec<u8>| v@) =~= r@.map_values(|v: Vec<u8>| v@) + rest);
            break;
        }
        n = n + 1;
    }
    r
}

/// The number after an optional last one.
fn next_after(last: Option<u64>) -> (r: u64)
    requires
        last != Some(u64::MAX),
    ensures
        r == next_number(last),
{
    match last {
        Some(h) => h + 1,
        None => 1,
    }
}

/// The hash a new block points back to.
fn parent_hash(latest: &Option<L2Block>) -> (r: String)
    ensures
        r@ == spec_parent_hash(*latest),
{
    match latest {
        Some(b) => b.hash.clone(),
        None => zero_hash(),
    }
}

/// The first and last numbers of the `limit` most recent of those up to `last`:
/// from `last - (limit - 1)` (not below 0) to `last`. The count is taken modulo
/// 2^64, so a limit of 0 reaches back to the start.
pub open spec fn spec_recent_range(last: Option<u64>, limit: usize) -> Option<(u64, u64)> {
    match last {
        None => None,
        Some(h) => {
            let back = vstd::wrapping::u64_specs::wrapping_sub(limit as u64, 1);
            Some((if h >= back { (h - back) as u64 } else { 0 }, h))
        },
    }
}

/// The first and last numbers of the `limit` most recent of those up to `last`.
pub fn recent_range(last: Option<u64>, limit: usize) -> (r: Option<(u64, u64)>)
    ensures
        r == spec_recent_range(last, limit),
{
    match last {
        None => None,
        Some(h) => {
            let back = (limit as u64).wrapping_sub(1);
            Some((h.saturating_sub(back), h))
        },
    }
}

/// A configuration that is never used to produce anything: every count zero
/// and no sequencer id.
fn placeholder_config() -> (r: SequencerConfig)
    ensures
        r.block_interval_secs == 0,
        r.max_txs_per_block == 0,
        r.blocks_per_batch == 0,
        r.sequencer_id@.len() == 0,
{
    SequencerConfig { block_interval_secs: 0, max_txs_per_block: 0, blocks_per_batch: 0, sequencer_id: String::new() }
}

/// The blocks of a run carry consecutive numbers.
pub open spec fn consecutive(blocks: Seq<L2Block>) -> bool {
    forall|i: int| 0 < i < blocks.len() ==> #[trigger] blocks[i].header.number == blocks[i - 1].header.number + 1
}

/// In a run of consecutive blocks, block `i` is numbered `i` past the first.
pub proof fn lemma_consecutive_numbers(blocks: Seq<L2Block>, i: int)
    requires
        consecutive(blocks),
        0 <= i < blocks.len(),
    ensures
        blocks[i].header.number == blocks[0].header.number + i,
    decreases i,
{
    if i > 0 {
        lemma_consecutive_numbers(blocks, i - 1);
    }
}

impl Sequencer {
    #[verifier::type_invariant]
    spec fn inv(&self) -> bool {
        &&& self.height == match self.latest_block {
            Some(b) => Some(b.header.number),
            None => None::<u64>,
        }
        &&& self.pending_blocks@.len() > 0 ==> (self.latest_block matches Some(b) && b@ == self.pending_blocks@.last()@)
        &&& consecutive(self.pending_blocks@)
    }

    /// The configuration.
    pub closed spec fn config_view(&self) -> SequencerConfig {
        self.config
    }

    /// The number of the latest block, if any.
    pub closed spec fn height_view(&self) -> Option<u64> {
        self.height
    }

    /// The number of the latest batch, if any.
    pub closed spec fn batch_number_view(&self) -> Option<u64> {
        self.batch_number
    }

    /// The blocks not yet in a batch, oldest first.
    pub closed spec fn pending_view(&self) -> Seq<L2Block> {
        self.pending_blocks@
    }

    /// The latest block, as values.
    pub closed spec fn latest_block_view(&self) -> Option<BlockView> {
        match self.latest_block {
            Some(b) => Some(b@),
            None => None,
        }
    }

    /// The latest block.
    pub closed spec fn latest_block_value(&self) -> Option<L2Block> {
        self.latest_block
    }

    /// The latest batch.
    pub closed spec fn latest_batch_view(&self) -> Option<L2Batch> {
        self.latest_batch
    }

    /// Every receipt so far, oldest first.
    pub closed spec fn receipts_view(&self) -> Seq<TxReceipt> {
        self.receipts@
    }

    /// A sequencer that has produced nothing.
    pub fn new(config: SequencerConfig) -> (r: Self)
        ensures
            r.config_view() == config,
            r.height_view() is None,
            r.batch_number_view() is None,
            r.pending_view().len() == 0,
            r.latest_block_value() is None,
            r.latest_batch_view() is None,
            r.receipts_view().len() == 0,
    {
        Sequencer {
            config,
            height: None,
            batch_number: None,
            pending_blocks: Vec::new(),
            latest_block: None,
            latest_batch: None,
            receipts: Vec::new(),
        }
    }

    /// The configuration.
    pub fn config(&self) -> (r: &SequencerConfig)
        ensures
            *r == self.config_view(),
    {
        &self.config
    }

    /// The number of the latest block, if any.
    pub fn block_height(&self) -> (r: Option<u64>)
        ensures
            r == self.height_view(),
    {
        self.height
    }

    /// The number of the latest batch, if any.
    pub fn batch_number(&self) -> (r: Option<u64>)
        ensures
            r == self.batch_number_view(),
    {
        self.batch_number
    }

    /// The latest block, if any.
    pub fn latest_block(&self) -> (r: Option<&L2Block>)
        ensures
            r == match self.latest_block_value() {
                Some(b) => Some(&b),
                None => None::<&L2Block>,
            },
    {
        match &self.latest_block {
            Some(b) => Some(b),
            None => None,
        }
    }

    /// The latest batch, if any.
    pub fn latest_batch(&self) -> (r: Option<&L2Batch>)
        ensures
            r == match self.latest_batch_view() {
                Some(b) => Some(&b),
                None => None::<&L2Batch>,
            },
    {
        match &self.latest_batch {
            Some(b) => Some(b),
            None => None,
        }
    }

    /// The blocks not yet in a batch, oldest first.
    pub fn pending_blocks(&self) -> (r: &Vec<L2Block>)
        ensures
            r@ == self.pending_view(),
    {
        &self.pending_blocks
    }

    /// Every receipt so far, oldest first.
    pub fn receipts(&self) -> (r: &Vec<TxReceipt>)
        ensures
            r@ == self.receipts_view(),
    {
        &self.receipts
    }

    /// Drains up to `max_txs_per_block` transactions from the mempool. If there
    /// are none, nothing happens. Otherwise they become block `height + 1`: the
    /// transactions run one after another (each failure leaving the state as it
    /// was) and get their statuses; the block's header points back to the latest
    /// block and carries the resulting state root and the root of the
    /// transactions' ids; each transaction leaves a receipt naming the block's
    /// hash. The block becomes the latest and joins the blocks awaiting a batch.
    /// A batch is due once those number `blocks_per_batch`. The block is
    /// stamped with the clock's time, read once during this call (as
    /// `produce_block_at` states for the time it is given).
    pub fn produce_block(&mut self, mempool: &mut Mempool, runtime: &Runtime, state: &mut StateManager) -> (r: Option<Produced>)
        requires
            spec_drain(old(mempool)@, old(self).config_view().max_txs_per_block as nat).0.len() > 0
                ==> old(self).height_view() != Some(u64::MAX),
        ensures
            ({
                let (drained, m1) = spec_drain(old(mempool)@, old(self).config_view().max_txs_per_block as nat);
                let v = tx_views(drained);
                let m0 = old(state).accounts();
                &&& final(mempool)@ == m1
                &&& final(self).config_view() == old(self).config_view()
                &&& final(self).batch_number_view() == old(self).batch_number_view()
                &&& final(self).latest_batch_view() == old(self).latest_batch_view()
                &&& if drained.len() == 0 {
                    &&& r is None
                    &&& *final(self) == *old(self)
                    &&& *final(state) == *old(state)
                } else {
                    let number = next_number(old(self).height_view());
                    let pending = final(self).pending_view();
                    let b = pending.last();
                    let h = b.header@;
                    &&& r matches Some(p) && p.number == number && p.first_receipt == old(self).receipts_view().len()
                        && p.batch_due == (pending.len() >= old(self).config_view().blocks_per_batch)
                    &&& final(self).height_view() == Some(number)
                    &&& pending.len() == old(self).pending_view().len() + 1
                    &&& pending.drop_last() == old(self).pending_view()
                    &&& final(self).latest_block_view() == Some(b@)
                    &&& h.number == number
                    &&& h.number == match old(self).latest_block_value() {
                        Some(pb) => (pb.header.number + 1) as u64,
                        None => 1u64,
                    }
                    &&& h.parent_hash == spec_parent_hash(old(self).latest_block_value())
                    &&& h.state_root == final(state).root()
                    &&& h.tx_root == spec_tx_root(v)
                    &&& h.sequencer == old(self).config_view().sequencer_id@
                    &&& h.timestamp.nanos <= 1_999_999_999
                    &&& b.hash@ == spec_header_hash(h)
                    &&& b.transactions@.len() == v.len()
                    &&& forall|j: int| 0 <= j < v.len() ==> executed_as(#[trigger] b.transactions@[j]@, spec_apply_all(m0, v.take(j)), v[j])
                    &&& final(self).receipts_view().len() == old(self).receipts_view().len() + v.len()
                    &&& final(self).receipts_view().take(old(self).receipts_view().len() as int) == old(self).receipts_view()
                    &&& forall|j: int| 0 <= j < v.len() ==> receipt_of(
                        #[trigger] final(self).receipts_view()[old(self).receipts_view().len() + j],
                        spec_apply_all(m0, v.take(j)), v[j], number, b.hash@, j)
                    &&& final(state).accounts() == spec_apply_all(m0, v)
                    &&& final(state).root() == if spec_any_success(m0, v) { spec_map_root(final(state).accounts()) } else { old(state).root() }
                }
            }),
    {
        let now = utc_now();
        self.produce_block_at(mempool, runtime, state, now)
    }

    /// Drains up to `max_txs_per_block` transactions from the mempool. If there
    /// are none, nothing happens. Otherwise they become block `height + 1`: the
    /// transactions run one after another (each failure leaving the state as it
    /// was) and get their statuses; the block's header points back to the latest
    /// block and carries the resulting state root and the root of the
    /// transactions' ids; each transaction leaves a receipt naming the block's
    /// hash. The block becomes the latest and joins the blocks awaiting a batch.
    /// A batch is due once those number `blocks_per_batch`. The block is
    /// stamped with `now`.
    pub fn produce_block_at(
        &mut self,
        mempool: &mut Mempool,
        runtime: &Runtime,
        state: &mut StateManager,
        now: Timestamp,
    ) -> (r: Option<Produced>)
        requires
            spec_drain(old(mempool)@, old(self).config_view().max_txs_per_block as nat).0.len() > 0
                ==> old(self).height_view() != Some(u64::MAX),
        ensures
            ({
                let (drained, m1) = spec_drain(old(mempool)@, old(self).config_view().max_txs_per_block as nat);
                let v = tx_views(drained);
                let m0 = old(state).accounts();
                &&& final(mempool)@ == m1
                &&& final(self).config_view() == old(self).config_view()
                &&& final(self).batch_number_view() == old(self).batch_number_view()
                &&& final(self).latest_batch_view() == old(self).latest_batch_view()
                &&& if drained.len() == 0 {
                    &&& r is None
                    &&& *final(self) == *old(self)
                    &&& *final(state) == *old(state)
                } else {
                    let number = next_number(old(self).height_view());
                    let pending = final(self).pending_view();
                    let b = pending.last();
                    let h = b.header@;
                    &&& r matches Some(p) && p.number == number && p.first_receipt == old(self).receipts_view().len()
                        && p.batch_due == (pending.len() >= old(self).config_view().blocks_per_batch)
                    &&& final(self).height_view() == Some(number)
                    &&& pending.len() == old(self).pending_view().len() + 1
                    &&& pending.drop_last() == old(self).pending_view()
                    &&& final(self).latest_block_view() == Some(b@)
                    &&& h.number == number
                    &&& h.number == match old(self).latest_block_value() {
                        Some(pb) => (pb.header.number + 1) as u64,
                        None => 1u64,
                    }
                    &&& h.parent_hash == spec_parent_hash(old(self).latest_block_value())
                    &&& h.state_root == final(state).root()
                    &&& h.tx_root == spec_tx_root(v)
                    &&& h.sequencer == old(self).config_view().sequencer_id@
                    &&& h.timestamp == now
                    &&& b.hash@ == spec_header_hash(h)
                    &&& b.transactions@.len() == v.len()
                    &&& forall|j: int| 0 <= j < v.len() ==> executed_as(#[trigger] b.transactions@[j]@, spec_apply_all(m0, v.take(j)), v[j])
                    &&& final(self).receipts_view().len() == old(self).receipts_view().len() + v.len()
                    &&& final(self).receipts_view().take(old(self).receipts_view().len() as int) == old(self).receipts_view()
                    &&& forall|j: int| 0 <= j < v.len() ==> receipt_of(
                        #[trigger] final(self).receipts_view()[old(self).receipts_view().len() + j],
                        spec_apply_all(m0, v.take(j)), v[j], number, b.hash@, j)
                    &&& final(state).accounts() == spec_apply_all(m0, v)
                    &&& final(state).root() == if spec_any_success(m0, v) { spec_map_root(final(state).accounts()) } else { old(state).root() }
                }
            }),
    {
        proof {
            use_type_invariant(&*self);
        }
        let txs = mempool.drain(self.config.max_txs_per_block);
        if txs.len() == 0 {
            return None;
        }
        let mut cur = Sequencer::new(placeholder_config());
        std::mem::swap(self, &mut cur);
        let Sequencer { config, height, batch_number, mut pending_blocks, latest_block, latest_batch, mut receipts } = cur;
        let number = next_after(height);
        let parent_hash = parent_hash(&latest_block);
        let tx_root = compute_tx_root(&txs);
        let timestamp = now;
        let (executed, mut new_receipts) = execute_block(runtime, state, &txs, number);
        let state_root = state.get_state_root_async();
        let header = BlockHeader {
            number,
            parent_hash,
            state_root,
            tx_root,
            timestamp,
            sequencer: config.sequencer_id.clone(),
        };
        let block_hash = header.hash();
        let ghost unstamped = new_receipts@;
        stamp_block_hash(&mut new_receipts, &block_hash);
        let block = L2Block::new(header, executed);
        let first_receipt = receipts.len();
        let ghost old_receipts = receipts@;
        let ghost old_pending = pending_blocks@;
        let ghost new_r = new_receipts@;
        let latest = block.duplicate();
        receipts.append(&mut new_receipts);
        pending_blocks.push(block);
        assert(pending_blocks@.drop_last() =~= old_pending);
        assert(receipts@.take(first_receipt as int) =~= old_receipts);
        assert forall|j: int| 0 <= j < new_r.len() implies receipts@[first_receipt + j] == new_r[j] by {}
        assert forall|j: int| 0 <= j < new_r.len() implies receipt_of(
            #[trigger] new_r[j], spec_apply_all(old(state).accounts(), tx_views(txs@).take(j)), tx_views(txs@)[j], number, block_hash@, j)
            by {
            assert(rehashed(unstamped[j], new_r[j], block_hash@));
        }
        assert(consecutive(pending_blocks@)) by {
            assert forall|i: int| 0 < i < pending_blocks@.len() implies #[trigger] pending_blocks@[i].header.number
                == pending_blocks@[i - 1].header.number + 1 by {
                if i < pending_blocks@.len() - 1 {
                    assert(pending_blocks@[i] == old_pending[i]);
                    assert(pending_blocks@[i - 1] == old_pending[i - 1]);
                }
            }
        }
        let batch_due = pending_blocks.len() >= config.blocks_per_batch;
        *self = Sequencer {
            config,
            height: Some(number),
            batch_number,
            pending_blocks,
            latest_block: Some(latest),
            latest_batch,
            receipts,
        };
        Some(Produced { number, first_receipt, batch_due })
    }

    /// The blocks awaiting a batch hold at most `usize::MAX` transactions, so a
    /// batch of them can count them.
    pub open spec fn pending_txs_fit_spec(&self) -> bool {
        spec_total_txs(self.pending_view()) <= usize::MAX
    }

    /// Whether the blocks awaiting a batch hold at most `usize::MAX` transactions.
    pub fn pending_txs_fit(&self) -> (r: bool)
        ensures
            r == self.pending_txs_fit_spec(),
    {
        let mut total: usize = 0;
        let mut i: usize = 0;
        let n = self.pending_blocks.len();
        while i < n
            invariant
                n == self.pending_blocks@.len(),
                i <= n,
                total == spec_total_txs(self.pending_blocks@.take(i as int)),
            decreases n - i,
        {
            assert(self.pending_blocks@.take(i + 1).drop_last() =~= self.pending_blocks@.take(i as int));
            let c = self.pending_blocks[i].tx_count();
            if c > usize::MAX - total {
                proof {
                    crate::types::batch::lemma_total_txs_prefix_mono(self.pending_blocks@, i + 1);
                    assert(self.pending_blocks@.subrange(0, i + 1) =~= self.pending_blocks@.take(i + 1));
                }
                return false;
            }
            total = total + c;
            i = i + 1;
        }
        assert(self.pending_blocks@.take(n as int) =~= self.pending_blocks@);
        true
    }

    /// Seals every block awaiting a batch into batch `batch_number + 1`, of
    /// `compressed_bytes` encoded size, sealed now; it becomes the latest batch.
    pub fn flush_batch(&mut self, compressed_bytes: usize)
        requires
            old(self).pending_txs_fit_spec(),
            old(self).batch_number_view() != Some(u64::MAX),
        ensures
            ({
                let number = next_number(old(self).batch_number_view());
                let blocks = old(self).pending_view();
                &&& final(self).batch_number_view() == Some(number)
                &&& final(self).pending_view().len() == 0
                &&& final(self).latest_batch_view() matches Some(b) && {
                    &&& b.meta.batch_number == number
                    &&& b.meta.first_block == spec_first_number(blocks)
                    &&& b.meta.last_block == spec_last_number(blocks)
                    &&& b.meta.total_txs == spec_total_txs(blocks)
                    &&& b.meta.compressed_bytes == compressed_bytes
                    &&& b.blocks@ == blocks
                    &&& b.status == BatchStatus::Pending
                    &&& forall|i: int| 0 <= i < blocks.len() ==> #[trigger] blocks[i].header.number == b.meta.first_block + i
                    &&& blocks.len() > 0 ==> Some(b.meta.last_block) == old(self).height_view()
                }
                &&& final(self).config_view() == old(self).config_view()
                &&& final(self).height_view() == old(self).height_view()
                &&& final(self).latest_block_value() == old(self).latest_block_value()
                &&& final(self).receipts_view() == old(self).receipts_view()
            }),
    {
        proof {
            use_type_invariant(&*self);
        }
        let mut cur = Sequencer::new(placeholder_config());
        std::mem::swap(self, &mut cur);
        let Sequencer { config, height, batch_number, pending_blocks, latest_block, latest_batch, receipts } = cur;
        let number = next_after(batch_number);
        proof {
            assert forall|i: int| 0 <= i < pending_blocks@.len() implies #[trigger] pending_blocks@[i].header.number
                == spec_first_number(pending_blocks@) + i by {
                lemma_consecutive_numbers(pending_blocks@, i);
            }
        }
        let batch = L2Batch::new(number, pending_blocks, compressed_bytes);
        *self = Sequencer {
            config,
            height,
            batch_number: Some(number),
            pending_blocks: Vec::new(),
            latest_block,
            latest_batch: Some(batch),
            receipts,
        };
    }

    /// The stored encodings of the `limit` most recent blocks, oldest first;
    /// numbers with nothing stored are skipped.
    pub fn recent_blocks(&self, store: &Store, limit: usize) -> (r: Vec<Vec<u8>>)
        ensures
            r@.map_values(|v: Vec<u8>| v@) == match spec_recent_range(self.height_view(), limit) {
                Some((first, last)) => stored_run(store.contents(), first as nat, last as nat, true),
                None => Seq::empty(),
            },
    {
        match recent_range(self.height, limit) {
            Some((first, last)) => read_run(store, first, last, true),
            None => Vec::new(),
        }
    }

    /// The stored encodings of the `limit` most recent batches, oldest first;
    /// numbers with nothing stored are skipped.
    pub fn recent_batches(&self, store: &Store, limit: usize) -> (r: Vec<Vec<u8>>)
        ensures
            r@.map_values(|v: Vec<u8>| v@) == match spec_recent_range(self.batch_number_view(), limit) {
                Some((first, last)) => stored_run(store.contents(), first as nat, last as nat, false),
                None => Seq::empty(),
            },
    {
        match recent_range(self.batch_number, limit) {
            Some((first, last)) => read_run(store, first, last, false),
            None => Vec::new(),
        }
    }

    /// The numbers of the `limit` most recent blocks, first and last.
    pub fn recent_block_range(&self, limit: usize) -> (r: Option<(u64, u64)>)
        ensures
            r == spec_recent_range(self.height_view(), limit),
    {
        recent_range(self.height, limit)
    }

    /// The numbers of the `limit` most recent batches, first and last.
    pub fn recent_batch_range(&self, limit: usize) -> (r: Option<(u64, u64)>)
        ensures
            r == spec_recent_range(self.batch_number_view(), limit),
    {
        recent_range(self.batch_number, limit)
    }
}

/// A block can be replayed: running its transactions as the block records them
/// (statuses and all) against the state before the block gives the state after
/// it, since a transaction's status plays no part in running it.
pub proof fn law_block_replays(m0: Accounts, v: Seq<TxView>, recorded: Seq<TxView>)
    requires
        recorded.len() == v.len(),
        forall|j: int| 0 <= j < v.len() ==> executed_as(#[trigger] recorded[j], spec_apply_all(m0, v.take(j)), v[j]),
    ensures
        spec_apply_all(m0, recorded) == spec_apply_all(m0, v),
    decreases v.len(),
{
    if v.len() > 0 {
        let n = v.len() - 1;
        assert forall|j: int| 0 <= j < v.drop_last().len() implies executed_as(
            #[trigger] recorded.drop_last()[j],
            spec_apply_all(m0, v.drop_last().take(j)),
            v.drop_last()[j],
        ) by {
            assert(v.drop_last().take(j) =~= v.take(j));
            assert(executed_as(recorded[j], spec_apply_all(m0, v.take(j)), v[j]));
        }
        law_block_replays(m0, v.drop_last(), recorded.drop_last());
        assert(v.take(n) =~= v.drop_last());
        assert(executed_as(recorded[n], spec_apply_all(m0, v.take(n)), v[n]));
    }
}

/// The accounts after running runs of transactions, one block after another.
pub open spec fn spec_apply_blocks(m: Accounts, blocks: Seq<Seq<TxView>>) -> Accounts
    decreases blocks.len(),
{
    if blocks.len() == 0 {
        m
    } else {
        spec_apply_all(spec_apply_blocks(m, blocks.drop_last()), blocks.last())
    }
}

/// `recorded` is the run `v` as a block records it, run against `m`: each
/// transaction with the status it got.
pub open spec fn recorded_as(recorded: Seq<TxView>, m: Accounts, v: Seq<TxView>) -> bool {
    &&& recorded.len() == v.len()
    &&& forall|j: int| 0 <= j < v.len() ==> executed_as(#[trigger] recorded[j], spec_apply_all(m, v.take(j)), v[j])
}

/// A batch can be replayed on its own: running the transactions of its blocks,
/// as the blocks record them, one block after another from the state before the
/// batch gives the state after it.
pub proof fn law_batch_replays(m0: Accounts, runs: Seq<Seq<TxView>>, recorded: Seq<Seq<TxView>>)
    requires
        recorded.len() == runs.len(),
        forall|i: int| 0 <= i < runs.len() ==> recorded_as(#[trigger] recorded[i], spec_apply_blocks(m0, runs.take(i)), runs[i]),
    ensures
        spec_apply_blocks(m0, recorded) == spec_apply_blocks(m0, runs),
    decreases runs.len(),
{
    if runs.len() > 0 {
        let n = runs.len() - 1;
        assert forall|i: int| 0 <= i < runs.drop_last().len() implies recorded_as(
            #[trigger] recorded.drop_last()[i],
            spec_apply_blocks(m0, runs.drop_last().take(i)),
            runs.drop_last()[i],
        ) by {
            assert(runs.drop_last().take(i) =~= runs.take(i));
            assert(recorded_as(recorded[i], spec_apply_blocks(m0, runs.take(i)), runs[i]));
        }
        law_batch_replays(m0, runs.drop_last(), recorded.drop_last());
        assert(runs.take(n) =~= runs.drop_last());
        let mb = spec_apply_blocks(m0, runs.drop_last());
        assert(recorded_as(recorded[n], mb, runs[n]));
        law_block_replays(mb, runs[n], recorded[n]);
    }
}

} // verus!
