use clutch::mempool::mempool::{Mempool, MAX_PENDING};
use clutch::types::pubkey::Pubkey;
use clutch::types::transaction::{L2Transaction, TransactionKind, TxStatus};

fn tx(id: &str) -> L2Transaction {
    L2Transaction::new(id.to_string(), Pubkey { bytes: [1; 32] }, TransactionKind::Burn { lamports: 1 }, 0, vec![])
}

#[test]
fn new_transaction_is_pending() {
    let t = tx("a");
    assert_eq!(t.status, TxStatus::Pending);
    assert_eq!(t.id, "a");
    assert_eq!(t.nonce, 0);
}

#[test]
fn accepts_new_and_rejects_duplicates() {
    let mut m = Mempool::new();
    assert!(m.accept(tx("a")));
    assert!(!m.accept(tx("a")));
    assert!(m.accept(tx("b")));
    assert_eq!(m.pending_count(), 2);
    assert_eq!(m.pending_ids(), vec!["a".to_string(), "b".to_string()]);
}

#[test]
fn duplicate_rejected_even_after_drain() {
    let mut m = Mempool::new();
    assert!(m.accept(tx("a")));
    let drained = m.drain(10);
    assert_eq!(drained.len(), 1);
    assert_eq!(m.pending_count(), 0);
    assert!(!m.accept(tx("a")));
    assert_eq!(m.pending_count(), 0);
}

#[test]
fn drain_is_first_in_first_out_and_bounded() {
    let mut m = Mempool::new();
    for id in ["a", "b", "c", "d"] {
        assert!(m.accept(tx(id)));
    }
    let first: Vec<String> = m.drain(3).into_iter().map(|t| t.id).collect();
    assert_eq!(first, vec!["a", "b", "c"]);
    assert_eq!(m.pending_ids(), vec!["d".to_string()]);
    assert!(m.drain(0).is_empty());
    let rest: Vec<String> = m.drain(10).into_iter().map(|t| t.id).collect();
    assert_eq!(rest, vec!["d"]);
    assert!(m.drain(10).is_empty());
}

#[test]
fn full_mempool_refuses_and_forgets_the_refused() {
    let mut m = Mempool::new();
    for i in 0..MAX_PENDING {
        assert!(m.accept(tx(&i.to_string())));
    }
    assert_eq!(m.pending_count(), MAX_PENDING);
    assert!(!m.accept(tx("extra")));
    assert_eq!(m.pending_count(), MAX_PENDING);
    m.drain(1);
    // the refused id was never remembered, so it can come in now
    assert!(m.accept(tx("extra")));
}

#[test]
fn pending_ids_are_distinct_and_drained_ids_stay_refused() {
    let mut m = clutch::mempool::mempool::Mempool::new();
    let t = |id: &str| {
        clutch::types::transaction::L2Transaction::new(
            id.to_string(),
            clutch::types::pubkey::Pubkey { bytes: [1; 32] },
            clutch::types::transaction::TransactionKind::Burn { lamports: 1 },
            0,
            vec![],
        )
    };
    assert!(m.accept(t("a")));
    assert!(m.accept(t("b")));
    assert!(!m.accept(t("a")));
    assert_eq!(m.pending_ids(), vec!["a".to_string(), "b".to_string()]);
    m.drain(1);
    m.drain(5);
    assert!(!m.accept(t("a")));
    assert!(!m.accept(t("b")));
    assert_eq!(m.pending_count(), 0);
}
