//! L2 blocks and their headers.
use vstd::prelude::*;

use crate::codec::{hex_encode, i64_le_bytes, push_bytes, push_str_bytes, spec_hex_lower, spec_i64_le, spec_u64_le, u64_le_bytes, utf8_bytes};
use crate::outside::{sha256, spec_sha256};
use crate::types::pubkey::Timestamp;
use crate::types::transaction::{L2Transaction, TxView};

verus! {

/// The header of a block.
#[derive(Clone, Debug)]
pub struct BlockHeader {
    pub number: u64,
    pub parent_hash: String,
    pub state_root: String,
    pub tx_root: String,
    pub timestamp: Timestamp,
    pub sequencer: String,
}

/// A header as values.
pub struct HeaderView {
    pub number: u64,
    pub parent_hash: Seq<char>,
    pub state_root: Seq<char>,
    pub tx_root: Seq<char>,
    pub timestamp: Timestamp,
    pub sequencer: Seq<char>,
}

impl View for BlockHeader {
    type V = HeaderView;

    open spec fn view(&self) -> HeaderView {
        HeaderView {
            number: self.number,
            parent_hash: self.parent_hash@,
            state_root: self.state_root@,
            tx_root: self.tx_root@,
            timestamp: self.timestamp,
            sequencer: self.sequencer@,
        }
    }
}

/// The bytes a header's hash is taken over: the number (little-endian), the
/// parent hash, state root and transaction root texts, and the timestamp's
/// seconds (little-endian). The sequencer's name is not covered.
pub open spec fn spec_header_preimage(h: HeaderView) -> Seq<u8> {
    spec_u64_le(h.number) + utf8_bytes(h.parent_hash) + utf8_bytes(h.state_root) + utf8_bytes(h.tx_root)
        + spec_i64_le(h.timestamp.secs)
}

/// The hash of a header: lowercase hex of the SHA-256 of its preimage.
pub open spec fn spec_header_hash(h: HeaderView) -> Seq<char> {
    spec_hex_lower(spec_sha256(spec_header_preimage(h)))
}

impl BlockHeader {
    /// A copy of the header.
    pub fn duplicate(&self) -> (r: Self)
        ensures
            r@ == self@,
    {
        BlockHeader {
            number: self.number,
            parent_hash: self.parent_hash.clone(),
            state_root: self.state_root.clone(),
            tx_root: self.tx_root.clone(),
            timestamp: self.timestamp,
            sequencer: self.sequencer.clone(),
        }
    }

    /// The header's hash.
    pub fn hash(&self) -> (r: String)
        ensures
            r@ == spec_header_hash(self@),
    {
        let mut pre: Vec<u8> = u64_le_bytes(self.number);
        push_str_bytes(&mut pre, self.parent_hash.as_str());
        push_str_bytes(&mut pre, self.state_root.as_str());
        push_str_bytes(&mut pre, self.tx_root.as_str());
        let ts = i64_le_bytes(self.timestamp.secs);
        push_bytes(&mut pre, ts.as_slice());
        assert(pre@ =~= spec_header_preimage(self@));
        let digest = sha256(pre.as_slice());
        hex_encode(digest.as_slice())
    }
}

/// A block: a header, the transactions it ran, and the header's hash.
#[derive(Clone, Debug)]
pub struct L2Block {
    pub header: BlockHeader,
    pub transactions: Vec<L2Transaction>,
    pub hash: String,
}

/// A block as values.
pub struct BlockView {
    pub header: HeaderView,
    pub transactions: Seq<TxView>,
    pub hash: Seq<char>,
}

impl View for L2Block {
    type V = BlockView;

    open spec fn view(&self) -> BlockView {
        BlockView {
            header: self.header@,
            transactions: self.transactions@.map_values(|t: L2Transaction| t@),
            hash: self.hash@,
        }
    }
}

impl L2Block {
    /// A copy of the block.
    pub fn duplicate(&self) -> (r: Self)
        ensures
            r@ == self@,
    {
        let mut txs: Vec<L2Transaction> = Vec::new();
        let n = self.transactions.len();
        let mut i: usize = 0;
        while i < n
            invariant
                n == self.transactions@.len(),
                i <= n,
                txs@.len() == i,
                forall|j: int| 0 <= j < i ==> #[trigger] txs@[j]@ == self.transactions@[j]@,
            decreases n - i,
        {
            txs.push(self.transactions[i].duplicate());
            i = i + 1;
        }
        let r = L2Block { header: self.header.duplicate(), transactions: txs, hash: self.hash.clone() };
        assert(r@.transactions =~= self@.transactions);
        r
    }

    /// Seals a block, its hash being that of the header.
    pub fn new(header: BlockHeader, transactions: Vec<L2Transaction>) -> (r: Self)
        ensures
            r.header == header,
            r.transactions == transactions,
            r.hash@ == spec_header_hash(header@),
    {
        let hash = header.hash();
        L2Block { header, transactions, hash }
    }

    /// The number of transactions in the block.
    pub fn tx_count(&self) -> (r: usize)
        ensures
            r == self.transactions@.len(),
    {
        self.transactions.len()
    }
}

} // verus!
