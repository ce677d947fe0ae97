use clutch::runtime::runtime::{Runtime, MINT_AUTHORITY};
use clutch::state::state_manager::StateManager;
use clutch::types::account::L2Account;
use clutch::types::pubkey::Pubkey;
use clutch::types::transaction::{L2Transaction, TransactionKind};

/// The base58 text of a key, as Solana writes it.
fn b58(k: &Pubkey) -> String {
    solana_sdk::pubkey::Pubkey::new_from_array(k.bytes).to_string()
}

fn key(b: u8) -> Pubkey {
    Pubkey { bytes: [b; 32] }
}

fn authority() -> Pubkey {
    Pubkey { bytes: [0; 32] }
}

fn tx(id: &str, from: Pubkey, kind: TransactionKind, nonce: u64) -> L2Transaction {
    L2Transaction::new(id.to_string(), from, kind, nonce, vec![])
}

fn funded(k: Pubkey, lamports: u64) -> StateManager {
    let mut s = StateManager::new(None);
    s.update_account(&k, L2Account::with_lamports(lamports));
    s
}

#[test]
fn mint_authority_is_the_zero_key() {
    assert_eq!(b58(&authority()), MINT_AUTHORITY);
}

#[test]
fn transfer_moves_lamports_and_bumps_nonce() {
    let rt = Runtime::new();
    let mut s = funded(key(1), 1_000);
    let t = tx("t1", key(1), TransactionKind::Transfer { to: key(2), lamports: 300 }, 0);
    let r = rt.execute(&mut s, &t, 7, "blockhash", 3);
    assert!(r.success);
    assert_eq!(r.error, None);
    assert_eq!(r.gas_used, 5000);
    assert_eq!(r.tx_id, "t1");
    assert_eq!(r.block_number, 7);
    assert_eq!(r.block_hash, "blockhash");
    assert_eq!(r.tx_index, 3);
    assert_eq!(
        r.logs,
        vec![format!("Transfer: 300 lamports from {} to {}", b58(&key(1)), b58(&key(2)))]
    );
    assert_eq!(s.get_account(&key(1)).unwrap().lamports, 700);
    assert_eq!(s.get_account(&key(2)).unwrap().lamports, 300);
    assert_eq!(s.get_nonce(&key(1)), 1);
    assert_eq!(s.get_nonce(&key(2)), 0);
}

#[test]
fn transfer_conserves_lamports() {
    let rt = Runtime::new();
    let mut s = funded(key(1), 1_000);
    s.update_account(&key(2), L2Account::with_lamports(50));
    let t = tx("t", key(1), TransactionKind::Transfer { to: key(2), lamports: 999 }, 0);
    assert!(rt.execute(&mut s, &t, 1, "h", 0).success);
    let total = s.get_account(&key(1)).unwrap().lamports + s.get_account(&key(2)).unwrap().lamports;
    assert_eq!(total, 1_050);
}

#[test]
fn transfer_to_self_credits_the_sender() {
    let rt = Runtime::new();
    let mut s = funded(key(1), 100);
    let t = tx("t", key(1), TransactionKind::Transfer { to: key(1), lamports: 40 }, 0);
    assert!(rt.execute(&mut s, &t, 1, "h", 0).success);
    assert_eq!(s.get_account(&key(1)).unwrap().lamports, 140);
    assert_eq!(s.get_nonce(&key(1)), 1);
    let too_much = tx("u", key(1), TransactionKind::Transfer { to: key(1), lamports: 141 }, 1);
    assert!(!rt.execute(&mut s, &too_much, 1, "h", 1).success);
    assert_eq!(s.get_account(&key(1)).unwrap().lamports, 140);
}

#[test]
fn insufficient_funds_fails_and_changes_nothing() {
    let rt = Runtime::new();
    let mut s = funded(key(1), 10);
    let root = s.get_state_root();
    let t = tx("t", key(1), TransactionKind::Transfer { to: key(2), lamports: 11 }, 0);
    let r = rt.execute(&mut s, &t, 1, "h", 0);
    assert!(!r.success);
    assert_eq!(r.error.as_deref(), Some("Insufficient funds: need 11, have 10"));
    assert_eq!(r.gas_used, 0);
    assert!(r.logs.is_empty());
    assert_eq!(s.get_account(&key(1)).unwrap().lamports, 10);
    assert_eq!(s.get_nonce(&key(1)), 0);
    assert!(s.get_account(&key(2)).is_none());
    assert_eq!(s.get_state_root(), root);
}

#[test]
fn wrong_nonce_fails() {
    let rt = Runtime::new();
    let mut s = funded(key(1), 10);
    let t = tx("t", key(1), TransactionKind::Burn { lamports: 1 }, 5);
    let r = rt.execute(&mut s, &t, 1, "h", 0);
    assert_eq!(r.error.as_deref(), Some("Invalid nonce: expected 0, got 5"));
    assert_eq!(s.get_account(&key(1)).unwrap().lamports, 10);
}

#[test]
fn replayed_transaction_is_rejected() {
    let rt = Runtime::new();
    let mut s = funded(key(1), 10);
    let t = tx("t", key(1), TransactionKind::Burn { lamports: 1 }, 0);
    assert!(rt.execute(&mut s, &t, 1, "h", 0).success);
    let again = rt.execute(&mut s, &t, 2, "h2", 0);
    assert!(!again.success);
    assert_eq!(again.error.as_deref(), Some("Invalid nonce: expected 1, got 0"));
    assert_eq!(s.get_account(&key(1)).unwrap().lamports, 9);
}

#[test]
fn only_the_authority_mints() {
    let rt = Runtime::new();
    let mut s = StateManager::new(None);
    let bad = tx("m", key(1), TransactionKind::Mint { to: key(2), lamports: 5 }, 0);
    let r = rt.execute(&mut s, &bad, 1, "h", 0);
    assert_eq!(r.error.as_deref(), Some("Invalid transaction signature"));
    assert!(s.get_account(&key(2)).is_none());
    let good = tx("m2", authority(), TransactionKind::Mint { to: key(2), lamports: 5 }, 0);
    let r = rt.execute(&mut s, &good, 1, "h", 1);
    assert!(r.success);
    assert_eq!(r.logs, vec![format!("Mint: 5 lamports to {}", b58(&key(2)))]);
    assert_eq!(s.get_account(&key(2)).unwrap().lamports, 5);
    assert_eq!(s.get_nonce(&authority()), 1);
}

#[test]
fn mint_wraps_at_the_top() {
    let rt = Runtime::new();
    let mut s = funded(key(2), u64::MAX);
    let t = tx("m", authority(), TransactionKind::Mint { to: key(2), lamports: 2 }, 0);
    assert!(rt.execute(&mut s, &t, 1, "h", 0).success);
    assert_eq!(s.get_account(&key(2)).unwrap().lamports, 1);
}

#[test]
fn burn_debits_and_logs() {
    let rt = Runtime::new();
    let mut s = funded(key(3), 50);
    let t = tx("b", key(3), TransactionKind::Burn { lamports: 50 }, 0);
    let r = rt.execute(&mut s, &t, 1, "h", 0);
    assert_eq!(r.logs, vec![format!("Burn: 50 lamports from {}", b58(&key(3)))]);
    assert_eq!(s.get_account(&key(3)).unwrap().lamports, 0);
    let over = tx("b2", key(3), TransactionKind::Burn { lamports: 1 }, 1);
    let r = rt.execute(&mut s, &over, 1, "h", 1);
    assert_eq!(r.error.as_deref(), Some("Insufficient funds: need 1, have 0"));
}

#[test]
fn burn_from_missing_account_fails() {
    let rt = Runtime::new();
    let mut s = StateManager::new(None);
    let t = tx("b", key(4), TransactionKind::Burn { lamports: 1 }, 0);
    let r = rt.execute(&mut s, &t, 1, "h", 0);
    assert_eq!(r.error.as_deref(), Some("Insufficient funds: need 1, have 0"));
    assert_eq!(s.get_state_root(), "0".repeat(64));
}

#[test]
fn custom_instruction_only_logs_and_bumps_nonce() {
    let rt = Runtime::new();
    let mut s = StateManager::new(None);
    let t = tx("c", key(5), TransactionKind::CustomInstruction { program_id: key(6), data: vec![1, 2, 3] }, 0);
    let r = rt.execute(&mut s, &t, 1, "h", 0);
    assert!(r.success);
    assert_eq!(r.logs, vec![format!("CustomInstruction: program={} data_len=3", b58(&key(6)))]);
    let a = s.get_account(&key(5)).unwrap();
    assert_eq!(a.nonce, 1);
    assert_eq!(a.lamports, 0);
    assert!(s.get_account(&key(6)).is_none());
}
