use clutch::mempool::mempool::Mempool;
use clutch::rpc::decode::{decode_kind, decode_transaction, extract_nonce};
use clutch::rpc::handlers::{decode_submission, send_transaction, simulate_transaction, INVALID_PARAMS, SERVER_ERROR};
use clutch::rpc::wire::{WireInstruction, WireTransaction};
use clutch::types::error::ClutchError;
use clutch::types::pubkey::Pubkey;
use clutch::types::transaction::{TransactionKind, TxStatus};

use solana_sdk::instruction::{AccountMeta, Instruction};
use solana_sdk::signature::{Keypair, Signer};
use solana_sdk::transaction::Transaction;

fn pk(k: &solana_sdk::pubkey::Pubkey) -> Pubkey {
    Pubkey { bytes: k.to_bytes() }
}

fn signed(payer: &Keypair, ix: Instruction) -> Transaction {
    Transaction::new_signed_with_payer(&[ix], Some(&payer.pubkey()), &[payer], solana_sdk::hash::Hash::new_from_array([7; 32]))
}

fn transfer_data(lamports: u64, nonce: Option<u64>) -> Vec<u8> {
    let mut d = 2u32.to_le_bytes().to_vec();
    d.extend_from_slice(&lamports.to_le_bytes());
    if let Some(n) = nonce {
        d.extend_from_slice(&n.to_le_bytes());
    }
    d
}

fn encode(tx: &Transaction) -> (String, Vec<u8>) {
    let raw = bincode::serialize(tx).unwrap();
    (bs58::encode(&raw).into_string(), raw)
}

fn wire(tx: &Transaction) -> WireTransaction {
    let m = &tx.message;
    WireTransaction {
        signatures: tx.signatures.iter().map(|s| <[u8; 64]>::from(*s)).collect(),
        num_required_signatures: m.header.num_required_signatures,
        num_readonly_signed_accounts: m.header.num_readonly_signed_accounts,
        num_readonly_unsigned_accounts: m.header.num_readonly_unsigned_accounts,
        account_keys: m.account_keys.iter().map(pk).collect(),
        recent_blockhash: m.recent_blockhash.to_bytes(),
        instructions: m
            .instructions
            .iter()
            .map(|i| WireInstruction { program_id_index: i.program_id_index, accounts: i.accounts.clone(), data: i.data.clone() })
            .collect(),
    }
}

#[test]
fn signed_transfer_decodes() {
    let payer = Keypair::new();
    let to = solana_sdk::pubkey::Pubkey::new_from_array([9; 32]);
    let program = solana_sdk::pubkey::Pubkey::new_from_array([0; 32]);
    let ix = Instruction::new_with_bytes(
        program,
        &transfer_data(1234, Some(7)),
        vec![AccountMeta::new(payer.pubkey(), true), AccountMeta::new(to, false)],
    );
    let t = signed(&payer, ix);
    let (encoded, raw) = encode(&t);
    let l2 = decode_submission(&encoded).unwrap();
    assert_eq!(l2.id, t.signatures[0].to_string());
    assert_eq!(l2.from, pk(&payer.pubkey()));
    assert_eq!(l2.nonce, 7);
    assert_eq!(l2.raw, raw);
    assert_eq!(l2.status, TxStatus::Pending);
    match l2.kind {
        TransactionKind::Transfer { to: got, lamports } => {
            assert_eq!(got, pk(&to));
            assert_eq!(lamports, 1234);
        }
        other => panic!("not a transfer: {other:?}"),
    }
}

#[test]
fn signed_wire_transaction_decodes() {
    let payer = Keypair::new();
    let program = solana_sdk::pubkey::Pubkey::new_from_array([3; 32]);
    let ix = Instruction::new_with_bytes(program, &[1, 2, 3], vec![]);
    let t = signed(&payer, ix);
    let (_, raw) = encode(&t);
    let l2 = decode_transaction(&wire(&t), raw.clone()).unwrap();
    assert_eq!(l2.id, t.signatures[0].to_string());
    assert_eq!(l2.from, pk(&payer.pubkey()));
    assert_eq!(l2.raw, raw);
    match l2.kind {
        TransactionKind::CustomInstruction { program_id, data } => {
            assert_eq!(program_id, pk(&program));
            assert_eq!(data, vec![1, 2, 3]);
        }
        other => panic!("not a custom instruction: {other:?}"),
    }
}

#[test]
fn tampered_transaction_fails_verification() {
    let payer = Keypair::new();
    let ix = Instruction::new_with_bytes(solana_sdk::pubkey::Pubkey::new_from_array([3; 32]), &[1, 2, 3], vec![]);
    let mut w = wire(&signed(&payer, ix));
    w.instructions[0].data[0] = 99;
    assert_eq!(decode_transaction(&w, vec![]).unwrap_err(), ClutchError::InvalidSignature);
}

#[test]
fn unsigned_transaction_is_refused() {
    let mut w = wire(&signed(&Keypair::new(), Instruction::new_with_bytes(solana_sdk::pubkey::Pubkey::new_from_array([3; 32]), &[], vec![])));
    w.signatures.clear();
    assert_eq!(decode_transaction(&w, vec![]).unwrap_err(), ClutchError::InvalidSignature);
}

fn bare(keys: Vec<Pubkey>, ixs: Vec<WireInstruction>) -> WireTransaction {
    WireTransaction {
        signatures: vec![],
        num_required_signatures: 0,
        num_readonly_signed_accounts: 0,
        num_readonly_unsigned_accounts: 0,
        account_keys: keys,
        recent_blockhash: [0; 32],
        instructions: ixs,
    }
}

fn k(b: u8) -> Pubkey {
    Pubkey { bytes: [b; 32] }
}

fn ix(program: u8, accounts: Vec<u8>, data: Vec<u8>) -> WireInstruction {
    WireInstruction { program_id_index: program, accounts, data }
}

#[test]
fn no_instruction_is_custom_of_sender() {
    let t = bare(vec![k(1)], vec![]);
    match decode_kind(&t, &k(1)) {
        TransactionKind::CustomInstruction { program_id, data } => {
            assert_eq!(program_id, k(1));
            assert!(data.is_empty());
        }
        other => panic!("{other:?}"),
    }
    assert_eq!(extract_nonce(&t), 0);
}

#[test]
fn mint_and_burn_tags() {
    let mut mint = 0x1000_0000u32.to_le_bytes().to_vec();
    mint.extend_from_slice(&55u64.to_le_bytes());
    let t = bare(vec![k(1), k(2), k(3)], vec![ix(2, vec![1], mint)]);
    match decode_kind(&t, &k(1)) {
        TransactionKind::Mint { to, lamports } => {
            assert_eq!(to, k(2));
            assert_eq!(lamports, 55);
        }
        other => panic!("{other:?}"),
    }
    let mut burn = 0x2000_0000u32.to_le_bytes().to_vec();
    burn.extend_from_slice(&9u64.to_le_bytes());
    burn.extend_from_slice(&4u64.to_le_bytes());
    let t = bare(vec![k(1)], vec![ix(0, vec![], burn)]);
    match decode_kind(&t, &k(1)) {
        TransactionKind::Burn { lamports } => assert_eq!(lamports, 9),
        other => panic!("{other:?}"),
    }
    assert_eq!(extract_nonce(&t), 4);
}

#[test]
fn out_of_range_indices_fall_back_to_sender() {
    let t = bare(vec![k(1)], vec![ix(9, vec![0, 40], transfer_data(3, None))]);
    match decode_kind(&t, &k(1)) {
        TransactionKind::Transfer { to, lamports } => {
            assert_eq!(to, k(1));
            assert_eq!(lamports, 3);
        }
        other => panic!("{other:?}"),
    }
    let t = bare(vec![k(1), k(2)], vec![ix(9, vec![], vec![1, 2, 3, 4, 5])]);
    match decode_kind(&t, &k(1)) {
        TransactionKind::CustomInstruction { program_id, data } => {
            assert_eq!(program_id, k(1));
            assert_eq!(data, vec![1, 2, 3, 4, 5]);
        }
        other => panic!("{other:?}"),
    }
}

#[test]
fn short_data_is_custom() {
    let t = bare(vec![k(1), k(2)], vec![ix(1, vec![0, 1], vec![2, 0, 0, 0, 1])]);
    match decode_kind(&t, &k(1)) {
        TransactionKind::CustomInstruction { program_id, .. } => assert_eq!(program_id, k(2)),
        other => panic!("{other:?}"),
    }
}

#[test]
fn nonce_needs_twenty_bytes() {
    let mut d = transfer_data(1, None);
    d.extend_from_slice(&[1, 2, 3, 4, 5, 6, 7]);
    assert_eq!(extract_nonce(&bare(vec![k(1)], vec![ix(0, vec![], d)])), 0);
    assert_eq!(extract_nonce(&bare(vec![k(1)], vec![ix(0, vec![], transfer_data(1, Some(u64::MAX)))])), u64::MAX);
}

#[test]
fn bad_base58_is_invalid_params() {
    let e = decode_submission("0OIl").unwrap_err();
    assert_eq!(e.code, INVALID_PARAMS);
    assert_eq!(e.message, "Invalid base58 encoding");
    assert!(e.data.is_some());
}

#[test]
fn bad_transaction_bytes_are_invalid_params() {
    let e = decode_submission(&bs58::encode([1u8, 2, 3]).into_string()).unwrap_err();
    assert_eq!(e.code, INVALID_PARAMS);
    assert_eq!(e.message, "Invalid transaction format");
}

#[test]
fn bad_signature_is_a_server_error() {
    let payer = Keypair::new();
    let mut t = signed(&payer, Instruction::new_with_bytes(solana_sdk::pubkey::Pubkey::new_from_array([3; 32]), &[1], vec![]));
    t.message.instructions[0].data[0] = 2;
    let (encoded, _) = encode(&t);
    let e = decode_submission(&encoded).unwrap_err();
    assert_eq!(e.code, SERVER_ERROR);
    assert_eq!(e.message, "Transaction decode failed");
    assert_eq!(e.data.as_deref(), Some("Invalid transaction signature"));
    assert!(simulate_transaction(&encoded).is_err());
}

#[test]
fn send_queues_once() {
    let payer = Keypair::new();
    let t = signed(&payer, Instruction::new_with_bytes(solana_sdk::pubkey::Pubkey::new_from_array([3; 32]), &[1], vec![]));
    let (encoded, _) = encode(&t);
    let mut m = Mempool::new();
    assert!(simulate_transaction(&encoded).is_ok());
    assert_eq!(m.pending_count(), 0);
    let id = send_transaction(&mut m, &encoded).unwrap();
    assert_eq!(id, t.signatures[0].to_string());
    assert_eq!(m.pending_ids(), vec![id.clone()]);
    let e = send_transaction(&mut m, &encoded).unwrap_err();
    assert_eq!(e.code, SERVER_ERROR);
    assert_eq!(e.message, "Transaction rejected");
    assert_eq!(e.data.as_deref(), Some("duplicate or mempool full"));
    assert_eq!(m.pending_count(), 1);
}
