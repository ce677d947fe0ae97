use clutch::genesis::{maybe_seed_genesis, FAUCET_LAMPORTS};
use clutch::mempool::mempool::Mempool;
use clutch::metrics::Metrics;
use clutch::rpc::handlers::{
    find_receipt, get_account_info, get_balance, get_chain_status, last_valid_block_height, latest_blockhash,
    recent_limit, root_is_sliceable, rpc_err, INVALID_PARAMS,
};
use clutch::sequencer::sequencer::{Sequencer, SequencerConfig};
use clutch::state::state_manager::StateManager;
use clutch::types::account::L2Account;
use clutch::types::pubkey::Pubkey;
use clutch::types::receipt::TxReceipt;

#[test]
fn genesis_funds_the_faucet_once() {
    let mut s = StateManager::new(None);
    maybe_seed_genesis(&mut s).unwrap();
    let faucet = Pubkey { bytes: [0; 32] };
    assert_eq!(s.get_account(&faucet).unwrap().lamports, FAUCET_LAMPORTS);
    assert_eq!(FAUCET_LAMPORTS, 1_000_000 * 1_000_000_000);
    let root = s.get_state_root();
    s.update_account(&faucet, L2Account::with_lamports(5));
    maybe_seed_genesis(&mut s).unwrap();
    assert_eq!(s.get_account(&faucet).unwrap().lamports, 5);
    assert_ne!(s.get_state_root(), root);
}

#[test]
fn balances_and_account_info() {
    let mut s = StateManager::new(None);
    maybe_seed_genesis(&mut s).unwrap();
    assert_eq!(get_balance(&s, "11111111111111111111111111111111").unwrap(), FAUCET_LAMPORTS);
    let other = solana_sdk::pubkey::Pubkey::new_from_array([4; 32]).to_string();
    assert_eq!(get_balance(&s, &other).unwrap(), 0);
    assert!(get_account_info(&s, &other).unwrap().is_none());
    let info = get_account_info(&s, "11111111111111111111111111111111").unwrap().unwrap();
    assert_eq!(info.lamports, FAUCET_LAMPORTS);
    assert_eq!(info.owner, "11111111111111111111111111111111");
    assert!(!info.executable);
    assert_eq!(info.nonce, 0);
    assert_eq!(info.data_base58, "");
    let e = get_balance(&s, "not a key").unwrap_err();
    assert_eq!(e.code, INVALID_PARAMS);
    assert_eq!(e.message, "Invalid pubkey");
    assert_eq!(e.data.as_deref(), Some("Invalid Base58 string"));
    let e = get_account_info(&s, "1111").unwrap_err();
    assert_eq!(e.data.as_deref(), Some("String is the wrong size"));
}

#[test]
fn blockhash_from_root() {
    let s = StateManager::new(None);
    assert!(root_is_sliceable(&s));
    assert_eq!(latest_blockhash(&s), format!("{}{}", "0".repeat(32), "1".repeat(31)));
    let short = StateManager::new(Some("abc".into()));
    assert!(!root_is_sliceable(&short));
    assert_eq!(last_valid_block_height(0), 150);
    assert_eq!(last_valid_block_height(u64::MAX), 149);
}

#[test]
fn chain_status_of_a_new_node() {
    let seq = Sequencer::new(SequencerConfig::default());
    let s = StateManager::new(None);
    let mut m = Mempool::new();
    assert!(m.accept(clutch::types::transaction::L2Transaction::new(
        "t".into(),
        Pubkey { bytes: [1; 32] },
        clutch::types::transaction::TransactionKind::Burn { lamports: 1 },
        0,
        vec![],
    )));
    let st = get_chain_status(&seq, &s, &m);
    assert_eq!(st.block_height, 0);
    assert_eq!(st.batch_number, 0);
    assert_eq!(st.state_root, "0".repeat(64));
    assert_eq!(st.pending_txs, 1);
}

#[test]
fn receipts_are_found_first_first() {
    let rs = vec![
        TxReceipt::success("a".into(), 1, "h".into(), 0, vec![]),
        TxReceipt::success("b".into(), 1, "h".into(), 1, vec![]),
        TxReceipt::failure("b".into(), 2, "h".into(), 0, "e".into()),
    ];
    assert_eq!(find_receipt(&rs, "b"), Some(1));
    assert_eq!(find_receipt(&rs, "a"), Some(0));
    assert_eq!(find_receipt(&rs, "z"), None);
}

#[test]
fn limits_and_errors() {
    assert_eq!(recent_limit(None), 10);
    assert_eq!(recent_limit(Some(3)), 3);
    let e = rpc_err(-1, "m", "d".into());
    assert_eq!(e.code, -1);
    assert_eq!(e.message, "m");
    assert_eq!(e.data.as_deref(), Some("d"));
}

#[test]
fn metrics_count() {
    let mut m = Metrics::new();
    assert!(!m.has_settled_txs());
    m.inc_txs_received();
    m.inc_txs_received();
    m.inc_txs_executed();
    m.inc_txs_failed();
    m.inc_blocks_produced();
    m.inc_batches_submitted();
    m.inc_batches_failed();
    let s = m.snapshot();
    assert_eq!(s.txs_received, 2);
    assert_eq!(s.txs_executed, 1);
    assert_eq!(s.txs_failed, 1);
    assert_eq!(s.blocks_produced, 1);
    assert_eq!(s.batches_submitted, 1);
    assert_eq!(s.batches_failed, 1);
    assert!(m.has_settled_txs());
    m.txs_received = u64::MAX;
    m.inc_txs_received();
    assert_eq!(m.txs_received, 0);
}

#[test]
fn account_info_renders_owner_and_data_in_base58() {
    let mut a = clutch::types::account::L2Account::with_lamports(3);
    a.owner = clutch::types::pubkey::Pubkey { bytes: [9; 32] };
    a.data = vec![0, 1, 2, 255];
    a.executable = true;
    a.nonce = 4;
    let info = clutch::rpc::handlers::account_info(&a);
    assert_eq!(info.owner, solana_sdk::pubkey::Pubkey::new_from_array([9; 32]).to_string());
    assert_eq!(info.data_base58, bs58::encode(&[0u8, 1, 2, 255]).into_string());
    assert_ne!(info.data_base58.as_bytes(), &[0u8, 1, 2, 255][..]);
    assert_eq!((info.lamports, info.executable, info.nonce), (3, true, 4));
}
