//! L2 transactions.
use vstd::prelude::*;

use crate::outside::utc_now;
use crate::types::pubkey::{Pubkey, Timestamp};

verus! {

/// What a transaction asks the runtime to do.
#[derive(Clone, Debug)]
pub enum TransactionKind {
    Transfer { to: Pubkey, lamports: u64 },
    Mint { to: Pubkey, lamports: u64 },
    Burn { lamports: u64 },
    CustomInstruction { program_id: Pubkey, data: Vec<u8> },
}

/// A transaction kind, its data taken as a sequence.
pub enum KindView {
    Transfer { to: Pubkey, lamports: u64 },
    Mint { to: Pubkey, lamports: u64 },
    Burn { lamports: u64 },
    CustomInstruction { program_id: Pubkey, data: Seq<u8> },
}

impl View for TransactionKind {
    type V = KindView;

    open spec fn view(&self) -> KindView {
        match self {
            TransactionKind::Transfer { to, lamports } => KindView::Transfer { to: *to, lamports: *lamports },
            TransactionKind::Mint { to, lamports } => KindView::Mint { to: *to, lamports: *lamports },
            TransactionKind::Burn { lamports } => KindView::Burn { lamports: *lamports },
            TransactionKind::CustomInstruction { program_id, data } => KindView::CustomInstruction {
                program_id: *program_id,
                data: data@,
            },
        }
    }
}

/// Where a transaction stands.
#[derive(Clone, Debug, PartialEq, Eq)]
pub enum TxStatus {
    Pending,
    Executed,
    Failed(String),
    Finalized,
}

/// A status, its failure reason taken as text.
pub enum StatusView {
    Pending,
    Executed,
    Failed(Seq<char>),
    Finalized,
}

impl View for TxStatus {
    type V = StatusView;

    open spec fn view(&self) -> StatusView {
        match self {
            TxStatus::Pending => StatusView::Pending,
            TxStatus::Executed => StatusView::Executed,
            TxStatus::Failed(r) => StatusView::Failed(r@),
            TxStatus::Finalized => StatusView::Finalized,
        }
    }
}

/// A transaction accepted by the rollup.
#[derive(Clone, Debug)]
pub struct L2Transaction {
    pub id: String,
    pub from: Pubkey,
    pub kind: TransactionKind,
    pub nonce: u64,
    pub received_at: Timestamp,
    pub raw: Vec<u8>,
    pub status: TxStatus,
}

/// A transaction as values.
pub struct TxView {
    pub id: Seq<char>,
    pub from: Pubkey,
    pub kind: KindView,
    pub nonce: u64,
    pub received_at: Timestamp,
    pub raw: Seq<u8>,
    pub status: StatusView,
}

impl View for L2Transaction {
    type V = TxView;

    open spec fn view(&self) -> TxView {
        TxView {
            id: self.id@,
            from: self.from,
            kind: self.kind@,
            nonce: self.nonce,
            received_at: self.received_at,
            raw: self.raw@,
            status: self.status@,
        }
    }
}

impl TransactionKind {
    /// A copy of the kind.
    pub fn duplicate(&self) -> (r: Self)
        ensures
            r@ == self@,
    {
        match self {
            TransactionKind::Transfer { to, lamports } => TransactionKind::Transfer { to: *to, lamports: *lamports },
            TransactionKind::Mint { to, lamports } => TransactionKind::Mint { to: *to, lamports: *lamports },
            TransactionKind::Burn { lamports } => TransactionKind::Burn { lamports: *lamports },
            TransactionKind::CustomInstruction { program_id, data } => {
                let d = data.clone();
                assert(d@ =~= data@);
                TransactionKind::CustomInstruction { program_id: *program_id, data: d }
            },
        }
    }
}

impl TxStatus {
    /// A copy of the status.
    pub fn duplicate(&self) -> (r: Self)
        ensures
            r@ == self@,
    {
        match self {
            TxStatus::Pending => TxStatus::Pending,
            TxStatus::Executed => TxStatus::Executed,
            TxStatus::Failed(reason) => TxStatus::Failed(reason.clone()),
            TxStatus::Finalized => TxStatus::Finalized,
        }
    }
}

impl L2Transaction {
    /// A copy of the transaction.
    pub fn duplicate(&self) -> (r: Self)
        ensures
            r@ == self@,
    {
        let raw = self.raw.clone();
        assert(raw@ =~= self.raw@);
        L2Transaction {
            id: self.id.clone(),
            from: self.from,
            kind: self.kind.duplicate(),
            nonce: self.nonce,
            received_at: self.received_at,
            raw,
            status: self.status.duplicate(),
        }
    }

    /// A pending transaction received now.
    pub fn new(id: String, from: Pubkey, kind: TransactionKind, nonce: u64, raw: Vec<u8>) -> (r: Self)
        ensures
            r.id == id,
            r.from == from,
            r.kind == kind,
            r.nonce == nonce,
            r.raw == raw,
            r.status == TxStatus::Pending,
    {
        L2Transaction { id, from, kind, nonce, received_at: utc_now(), raw, status: TxStatus::Pending }
    }
}

} // verus!
