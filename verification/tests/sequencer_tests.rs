use clutch::storage::store::{block_key, Store};
use clutch::mempool::mempool::Mempool;
use clutch::runtime::runtime::Runtime;
use clutch::sequencer::sequencer::{compute_tx_root, recent_range, Sequencer, SequencerConfig};
use clutch::state::state_manager::StateManager;
use clutch::types::account::L2Account;
use clutch::types::pubkey::Pubkey;
use clutch::types::transaction::{L2Transaction, TransactionKind, TxStatus};
use sha2::{Digest, Sha256};

fn key(b: u8) -> Pubkey {
    Pubkey { bytes: [b; 32] }
}

fn burn(id: &str, from: u8, lamports: u64, nonce: u64) -> L2Transaction {
    L2Transaction::new(id.to_string(), key(from), TransactionKind::Burn { lamports }, nonce, vec![])
}

fn config(max_txs: usize, per_batch: usize) -> SequencerConfig {
    SequencerConfig { block_interval_secs: 1, max_txs_per_block: max_txs, blocks_per_batch: per_batch, sequencer_id: "seq-test".into() }
}

#[test]
fn default_config() {
    let c = SequencerConfig::default();
    assert_eq!(c.block_interval_secs, 2);
    assert_eq!(c.max_txs_per_block, 100);
    assert_eq!(c.blocks_per_batch, 5);
    assert_eq!(c.sequencer_id, "clutch-sequencer-0");
}

#[test]
fn tx_root_formula() {
    assert_eq!(compute_tx_root(&vec![]), "0".repeat(64));
    let txs = vec![burn("ab", 1, 1, 0), burn("cd", 1, 1, 1)];
    assert_eq!(compute_tx_root(&txs), hex::encode(Sha256::digest(b"abcd")));
}

#[test]
fn nothing_to_do_without_transactions() {
    let mut seq = Sequencer::new(config(10, 2));
    let mut m = Mempool::new();
    let mut s = StateManager::new(None);
    assert!(seq.produce_block(&mut m, &Runtime::new(), &mut s).is_none());
    assert_eq!(seq.block_height(), None);
    assert!(seq.latest_block().is_none());
}

#[test]
fn blocks_chain_and_batches_form() {
    let rt = Runtime::new();
    let mut seq = Sequencer::new(config(2, 2));
    let mut m = Mempool::new();
    let mut s = StateManager::new(None);
    s.update_account(&key(1), L2Account::with_lamports(10));
    let root_before = s.get_state_root();
    for (i, id) in ["a", "b", "c"].iter().enumerate() {
        assert!(m.accept(burn(id, 1, 1, i as u64)));
    }
    let p1 = seq.produce_block(&mut m, &rt, &mut s).unwrap();
    assert_eq!(p1.number, 1);
    assert_eq!(p1.first_receipt, 0);
    assert!(!p1.batch_due);
    let b1 = seq.latest_block().unwrap().clone();
    assert_eq!(b1.header.number, 1);
    assert_eq!(b1.header.parent_hash, "0".repeat(64));
    assert_ne!(b1.header.state_root, root_before);
    assert_eq!(b1.header.state_root, s.get_state_root());
    assert_eq!(b1.header.sequencer, "seq-test");
    assert_eq!(b1.hash, b1.header.hash());
    assert_eq!(b1.transactions.len(), 2);
    assert!(b1.transactions.iter().all(|t| t.status == TxStatus::Executed));
    assert_eq!(seq.receipts().len(), 2);
    assert_eq!(seq.receipts()[1].tx_index, 1);
    assert_eq!(seq.receipts()[0].block_hash, b1.hash);
    assert_eq!(seq.receipts()[1].block_hash, b1.hash);
    assert_eq!(s.get_account(&key(1)).unwrap().lamports, 8);

    let p2 = seq.produce_block(&mut m, &rt, &mut s).unwrap();
    assert_eq!(p2.number, 2);
    assert_eq!(p2.first_receipt, 2);
    assert!(p2.batch_due);
    let b2 = seq.latest_block().unwrap().clone();
    assert_eq!(b2.header.parent_hash, b1.hash);
    assert_eq!(seq.block_height(), Some(2));
    assert_eq!(seq.pending_blocks().len(), 2);

    assert!(seq.pending_txs_fit());
    seq.flush_batch(1234);
    let batch = seq.latest_batch().unwrap();
    assert_eq!(batch.meta.batch_number, 1);
    assert_eq!(batch.meta.first_block, 1);
    assert_eq!(batch.meta.last_block, 2);
    assert_eq!(batch.meta.total_txs, 3);
    assert_eq!(batch.meta.compressed_bytes, 1234);
    assert_eq!(seq.batch_number(), Some(1));
    assert!(seq.pending_blocks().is_empty());
    assert_eq!(seq.latest_block().unwrap().hash, b2.hash);
    assert!(seq.produce_block(&mut m, &rt, &mut s).is_none());
}

#[test]
fn failed_transactions_are_marked_in_the_block() {
    let rt = Runtime::new();
    let mut seq = Sequencer::new(config(10, 5));
    let mut m = Mempool::new();
    let mut s = StateManager::new(None);
    assert!(m.accept(burn("x", 9, 5, 0)));
    seq.produce_block(&mut m, &rt, &mut s).unwrap();
    let b = seq.latest_block().unwrap();
    assert_eq!(b.transactions[0].status, TxStatus::Failed("Insufficient funds: need 5, have 0".into()));
    assert!(!seq.receipts()[0].success);
    assert_eq!(s.get_state_root(), "0".repeat(64));
}

#[test]
fn recent_ranges() {
    assert_eq!(recent_range(None, 10), None);
    assert_eq!(recent_range(Some(25), 10), Some((16, 25)));
    assert_eq!(recent_range(Some(3), 10), Some((0, 3)));
    assert_eq!(recent_range(Some(3), 1), Some((3, 3)));
    assert_eq!(recent_range(Some(3), 0), Some((0, 3)));
    let seq = Sequencer::new(config(1, 1));
    assert_eq!(seq.recent_block_range(10), None);
    assert_eq!(seq.recent_batch_range(10), None);
}

#[test]
fn recent_blocks_read_the_stored_range() {
    let rt = Runtime::new();
    let mut seq = Sequencer::new(config(1, 100));
    let mut m = Mempool::new();
    let mut s = StateManager::new(None);
    let mut store = Store::open("db").unwrap();
    for i in 0..4u64 {
        assert!(m.accept(burn(&format!("t{i}"), 1, 0, i)));
        let p = seq.produce_block(&mut m, &rt, &mut s).unwrap();
        if p.number != 2 {
            store.put(&block_key(p.number), vec![p.number as u8]);
        }
    }
    assert_eq!(seq.block_height(), Some(4));
    assert_eq!(seq.recent_blocks(&store, 3), vec![vec![3], vec![4]]);
    assert_eq!(seq.recent_blocks(&store, 10), vec![vec![1], vec![3], vec![4]]);
    assert_eq!(seq.recent_block_range(2), Some((3, 4)));
    assert!(seq.recent_batches(&store, 5).is_empty());
}
