use clutch::codec::{i64_le_bytes, le_read, u64_le_bytes, zero_hash};
use clutch::sequencer::sequencer::compute_tx_root;
use clutch::types::error::ClutchError;
use clutch::types::pubkey::Pubkey;
use clutch::types::transaction::{L2Transaction, TransactionKind};
use sha2::{Digest, Sha256};

#[test]
fn tx_root_is_lowercase_hex_two_digits_per_byte() {
    let t = L2Transaction::new(
        "xyz".to_string(),
        Pubkey { bytes: [1; 32] },
        TransactionKind::Burn { lamports: 1 },
        0,
        vec![],
    );
    let digest = Sha256::digest(b"xyz");
    let expected: String = digest.iter().map(|b| format!("{:02x}", b)).collect();
    let root = compute_tx_root(&vec![t]);
    assert_eq!(root, expected);
    assert_eq!(root.len(), 64);
    assert!(root.chars().all(|c| c.is_ascii_digit() || ('a'..='f').contains(&c)));
}

#[test]
fn u64_le_bytes_matches_std() {
    for x in [0u64, 1, 255, 256, 0x0102_0304_0506_0708, u64::MAX] {
        assert_eq!(u64_le_bytes(x), x.to_le_bytes().to_vec());
    }
}

#[test]
fn i64_le_bytes_matches_std() {
    for x in [0i64, -1, 1_700_000_000, i64::MIN, i64::MAX] {
        assert_eq!(i64_le_bytes(x), x.to_le_bytes().to_vec());
    }
}

#[test]
fn le_read_reads_little_endian() {
    let data = [2u8, 0, 0, 0, 0x10, 0x27, 0, 0, 0, 0, 0, 0, 9];
    assert_eq!(le_read(&data, 0, 4), 2);
    assert_eq!(le_read(&data, 4, 8), 10_000);
    assert_eq!(le_read(&data, 12, 1), 9);
    assert_eq!(le_read(&data, 5, 0), 0);
    let max = [0xffu8; 8];
    assert_eq!(le_read(&max, 0, 8), u64::MAX);
}

#[test]
fn decimal_text() {
    assert_eq!(
        ClutchError::InsufficientFunds { needed: u64::MAX, available: 0 }.message(),
        "Insufficient funds: need 18446744073709551615, have 0"
    );
    assert_eq!(ClutchError::InvalidNonce { expected: 5000, got: 7 }.message(), "Invalid nonce: expected 5000, got 7");
}

#[test]
fn zero_hash_is_sixty_four_zeros() {
    assert_eq!(zero_hash(), "0".repeat(64));
}
