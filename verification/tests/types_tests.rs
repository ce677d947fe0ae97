use clutch::types::batch::{BatchStatus, L2Batch};
use clutch::types::block::{BlockHeader, L2Block};
use clutch::types::error::ClutchError;
use clutch::types::pubkey::{Pubkey, Timestamp};
use clutch::types::receipt::TxReceipt;
use clutch::types::transaction::{L2Transaction, TransactionKind};
use sha2::{Digest, Sha256};

fn header(number: u64, sequencer: &str) -> BlockHeader {
    BlockHeader {
        number,
        parent_hash: "p".repeat(64),
        state_root: "s".repeat(64),
        tx_root: "t".repeat(64),
        timestamp: Timestamp { secs: 1_700_000_000, nanos: 5 },
        sequencer: sequencer.to_string(),
    }
}

fn block(number: u64, txs: usize) -> L2Block {
    let txs = (0..txs)
        .map(|i| L2Transaction::new(format!("{number}-{i}"), Pubkey { bytes: [1; 32] }, TransactionKind::Burn { lamports: 1 }, 0, vec![]))
        .collect();
    L2Block::new(header(number, "seq"), txs)
}

#[test]
fn header_hash_formula() {
    let h = header(42, "seq");
    let mut d = Sha256::new();
    d.update(42u64.to_le_bytes());
    d.update(h.parent_hash.as_bytes());
    d.update(h.state_root.as_bytes());
    d.update(h.tx_root.as_bytes());
    d.update(1_700_000_000i64.to_le_bytes());
    assert_eq!(h.hash(), hex::encode(d.finalize()));
}

#[test]
fn header_hash_ignores_sequencer_and_nanos() {
    let a = header(1, "one");
    let mut b = header(1, "two");
    b.timestamp.nanos = 999;
    assert_eq!(a.hash(), b.hash());
    assert_ne!(a.hash(), header(2, "one").hash());
}

#[test]
fn block_hash_is_header_hash() {
    let b = block(3, 2);
    assert_eq!(b.hash, b.header.hash());
    assert_eq!(b.tx_count(), 2);
    let c = b.duplicate();
    assert_eq!(c.hash, b.hash);
    assert_eq!(c.transactions.len(), 2);
    assert_eq!(c.transactions[1].id, "3-1");
}

#[test]
fn batch_meta() {
    let b = L2Batch::new(4, vec![block(10, 2), block(11, 0), block(12, 3)], 999);
    assert_eq!(b.meta.batch_number, 4);
    assert_eq!(b.meta.first_block, 10);
    assert_eq!(b.meta.last_block, 12);
    assert_eq!(b.meta.total_txs, 5);
    assert_eq!(b.meta.compressed_bytes, 999);
    assert_eq!(b.blocks.len(), 3);
    assert_eq!(b.status, BatchStatus::Pending);
}

#[test]
fn empty_batch_meta() {
    let b = L2Batch::new(1, vec![], 0);
    assert_eq!(b.meta.first_block, 0);
    assert_eq!(b.meta.last_block, 0);
    assert_eq!(b.meta.total_txs, 0);
}

#[test]
fn receipts() {
    let ok = TxReceipt::success("id".into(), 1, "h".into(), 2, vec!["log".into()]);
    assert!(ok.success);
    assert_eq!(ok.gas_used, 5000);
    assert_eq!(ok.error, None);
    assert_eq!(ok.logs, vec!["log".to_string()]);
    let bad = TxReceipt::failure("id".into(), 1, "h".into(), 2, "why".into());
    assert!(!bad.success);
    assert_eq!(bad.gas_used, 0);
    assert_eq!(bad.error.as_deref(), Some("why"));
    assert!(bad.logs.is_empty());
}

#[test]
fn error_messages() {
    let cases = vec![
        (ClutchError::InvalidSignature, "Invalid transaction signature"),
        (ClutchError::InsufficientFunds { needed: 5, available: 3 }, "Insufficient funds: need 5, have 3"),
        (ClutchError::InvalidNonce { expected: 1, got: 2 }, "Invalid nonce: expected 1, got 2"),
        (ClutchError::UnknownInstruction("x".into()), "Unknown transaction kind: x"),
        (ClutchError::TxNotFound("x".into()), "Transaction not found: x"),
        (ClutchError::AccountNotFound("x".into()), "Account not found: x"),
        (ClutchError::StateRootError("x".into()), "State root computation failed: x"),
        (ClutchError::Storage("x".into()), "Storage error: x"),
        (ClutchError::Serialization("x".into()), "Serialization error: x"),
        (ClutchError::BatchChannelClosed, "Batch channel closed"),
        (ClutchError::L1SubmissionFailed("x".into()), "L1 submission failed: x"),
        (ClutchError::InvalidPubkey("x".into()), "Invalid public key: x"),
        (ClutchError::InvalidEncoding("x".into()), "Invalid transaction encoding: x"),
    ];
    for (e, text) in cases {
        assert_eq!(e.message(), text);
    }
}
