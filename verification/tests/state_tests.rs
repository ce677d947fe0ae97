use clutch::state::state_manager::{account_key_bytes, StateManager};
use clutch::types::account::L2Account;
use clutch::types::pubkey::Pubkey;
use sha2::{Digest, Sha256};

/// The base58 text of a key, as Solana writes it.
fn b58(k: &Pubkey) -> String {
    solana_sdk::pubkey::Pubkey::new_from_array(k.bytes).to_string()
}

fn key(b: u8) -> Pubkey {
    Pubkey { bytes: [b; 32] }
}

fn leaf(key_text: &str, a: &L2Account) -> [u8; 32] {
    let mut h = Sha256::new();
    h.update(key_text.as_bytes());
    h.update(a.lamports.to_le_bytes());
    h.update(a.nonce.to_le_bytes());
    h.update(a.owner.bytes);
    h.update([a.executable as u8]);
    h.update(Sha256::digest(&a.data));
    h.finalize().into()
}

fn expected_root(mut accounts: Vec<(String, L2Account)>) -> String {
    accounts.sort_by(|x, y| x.0.cmp(&y.0));
    let mut h = Sha256::new();
    for (k, a) in &accounts {
        h.update(leaf(k, a));
    }
    hex::encode(h.finalize())
}

#[test]
fn new_state_has_no_accounts_and_a_zero_root() {
    let s = StateManager::new(None);
    assert_eq!(s.get_state_root(), "0".repeat(64));
    assert!(s.get_account(&key(1)).is_none());
    assert_eq!(s.get_nonce(&key(1)), 0);
}

#[test]
fn new_state_keeps_a_stored_root() {
    let s = StateManager::new(Some("ab".repeat(32)));
    assert_eq!(s.get_state_root_async(), "ab".repeat(32));
}

#[test]
fn account_key_is_the_base58_text() {
    let k = key(7);
    assert_eq!(account_key_bytes(&k), b58(&k).into_bytes());
}

#[test]
fn read_after_write() {
    let mut s = StateManager::new(None);
    let mut a = L2Account::with_lamports(500);
    a.nonce = 3;
    a.data = vec![1, 2];
    s.update_account(&key(1), a.clone());
    let got = s.get_account(&key(1)).unwrap();
    assert_eq!(got.lamports, 500);
    assert_eq!(got.nonce, 3);
    assert_eq!(got.data, vec![1, 2]);
    assert_eq!(s.get_nonce(&key(1)), 3);
    assert!(s.get_account(&key(2)).is_none());
}

#[test]
fn rewrite_replaces_the_account() {
    let mut s = StateManager::new(None);
    s.update_account(&key(1), L2Account::with_lamports(1));
    s.update_account(&key(1), L2Account::with_lamports(2));
    assert_eq!(s.get_account(&key(1)).unwrap().lamports, 2);
    assert_eq!(s.account_entries().len(), 1);
}

#[test]
fn state_root_is_hash_of_sorted_leaves() {
    let mut s = StateManager::new(None);
    let keys = [key(9), key(1), key(200), key(42)];
    let mut expected = Vec::new();
    for (i, k) in keys.iter().enumerate() {
        let mut a = L2Account::with_lamports(100 * (i as u64 + 1));
        a.nonce = i as u64;
        a.data = vec![i as u8; i];
        s.update_account(k, a.clone());
        expected.push((b58(k), a));
    }
    assert_eq!(s.get_state_root(), expected_root(expected));
}

#[test]
fn single_account_root() {
    let mut s = StateManager::new(None);
    let a = L2Account::with_lamports(1_000);
    s.update_account(&key(3), a.clone());
    assert_eq!(s.get_state_root(), expected_root(vec![(b58(&key(3)), a)]));
}

#[test]
fn root_independent_of_write_order() {
    let mut s1 = StateManager::new(None);
    let mut s2 = StateManager::new(None);
    s1.update_account(&key(1), L2Account::with_lamports(10));
    s1.update_account(&key(2), L2Account::with_lamports(20));
    s2.update_account(&key(2), L2Account::with_lamports(20));
    s2.update_account(&key(1), L2Account::with_lamports(10));
    assert_eq!(s1.get_state_root(), s2.get_state_root());
}

#[test]
fn entries_are_in_key_text_order() {
    let mut s = StateManager::new(None);
    for b in [5u8, 250, 0, 77] {
        s.update_account(&key(b), L2Account::with_lamports(b as u64));
    }
    let keys: Vec<Vec<u8>> = s.account_entries().iter().map(|e| e.key.clone()).collect();
    let mut sorted = keys.clone();
    sorted.sort();
    assert_eq!(keys, sorted);
}

#[test]
fn system_owned_account_defaults() {
    let a = L2Account::new_system_owned();
    assert_eq!(a.lamports, 0);
    assert!(a.data.is_empty());
    assert!(!a.executable);
    assert_eq!(a.nonce, 0);
    assert_eq!(b58(&a.owner), "11111111111111111111111111111111");
    let b = L2Account::with_lamports(77);
    assert_eq!(b.lamports, 77);
    assert_eq!(b.owner, a.owner);
    let c = b.duplicate();
    assert_eq!(c.lamports, 77);
}

#[test]
fn root_commits_to_owner_and_executable() {
    let mut s1 = StateManager::new(None);
    let mut s2 = StateManager::new(None);
    let mut s3 = StateManager::new(None);
    let a = L2Account::with_lamports(10);
    let mut b = a.clone();
    b.owner = key(5);
    let mut c = a.clone();
    c.executable = true;
    s1.update_account(&key(1), a);
    s2.update_account(&key(1), b.clone());
    s3.update_account(&key(1), c.clone());
    assert_ne!(s1.get_state_root(), s2.get_state_root());
    assert_ne!(s1.get_state_root(), s3.get_state_root());
    assert_eq!(s2.get_state_root(), expected_root(vec![(b58(&key(1)), b)]));
    assert_eq!(s3.get_state_root(), expected_root(vec![(b58(&key(1)), c)]));
}

#[test]
fn writing_another_key_keeps_the_first() {
    let mut s = StateManager::new(None);
    s.update_account(&key(1), L2Account::with_lamports(11));
    s.update_account(&key(2), L2Account::with_lamports(22));
    assert_eq!(s.get_account(&key(1)).unwrap().lamports, 11);
    assert_eq!(s.get_account(&key(2)).unwrap().lamports, 22);
    assert_eq!(s.account_entries().len(), 2);
}
