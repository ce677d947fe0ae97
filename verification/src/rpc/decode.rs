//! Turning a submitted Solana transaction into an L2 transaction.
use vstd::prelude::*;

use crate::codec::{le_bytes, le_read, le_value, pow256, spec_u64_le};
use crate::outside::{signature_to_string, spec_signature_base58, spec_signatures_verify, verify_signatures};
use crate::rpc::wire::{fits_short_vecs, WireTransaction, WireTxView};
use crate::types::error::ClutchError;
use crate::types::pubkey::Pubkey;
use crate::types::transaction::{KindView, L2Transaction, StatusView, TransactionKind, TxView};

verus! {

/// The instruction tag of the system program's transfer.
pub const SYSTEM_TRANSFER_DISCRIMINANT: u64 = 2;

/// The instruction tag this rollup reads as a mint.
pub const MINT_DISCRIMINANT: u64 = 0x10000000;

/// The instruction tag this rollup reads as a burn.
pub const BURN_DISCRIMINANT: u64 = 0x20000000;

/// The account key at `idx`, or `from` when there is none.
pub open spec fn key_at(tx: WireTxView, idx: int, from: Pubkey) -> Pubkey {
    if 0 <= idx < tx.account_keys.len() { tx.account_keys[idx] } else { from }
}

/// The account index at `pos` of an instruction's account list, or 0.
pub open spec fn account_index(accounts: Seq<u8>, pos: int) -> int {
    if 0 <= pos < accounts.len() { accounts[pos] as int } else { 0 }
}

/// What the first instruction of a transaction asks for. Its data starts with a
/// four-byte little-endian tag; a transfer, mint or burn then carries an eight-byte
/// little-endian amount. A transfer pays the key of its second account, a mint its
/// first. Anything else, including a transaction without instructions, is a
/// custom instruction of the program it names (of the sender, if none).
pub open spec fn spec_decode_kind(tx: WireTxView, from: Pubkey) -> KindView {
    if tx.instructions.len() == 0 {
        KindView::CustomInstruction { program_id: from, data: Seq::empty() }
    } else {
        let ix = tx.instructions[0];
        let data = ix.data;
        let tag = le_value(data.take(4));
        let amount = le_value(data.subrange(4, 12)) as u64;
        if data.len() >= 12 && tag == SYSTEM_TRANSFER_DISCRIMINANT {
            KindView::Transfer { to: key_at(tx, account_index(ix.accounts, 1), from), lamports: amount }
        } else if data.len() >= 12 && tag == MINT_DISCRIMINANT {
            KindView::Mint { to: key_at(tx, account_index(ix.accounts, 0), from), lamports: amount }
        } else if data.len() >= 12 && tag == BURN_DISCRIMINANT {
            KindView::Burn { lamports: amount }
        } else {
            KindView::CustomInstruction { program_id: key_at(tx, ix.program_id_index as int, from), data }
        }
    }
}

/// The nonce a transaction carries: bytes 12 to 20 of its first instruction's
/// data, little-endian, or 0 when there are fewer.
pub open spec fn spec_extract_nonce(tx: WireTxView) -> u64 {
    if tx.instructions.len() > 0 && tx.instructions[0].data.len() >= 20 {
        le_value(tx.instructions[0].data.subrange(12, 20)) as u64
    } else {
        0
    }
}

/// A transaction is taken when its signatures verify and it has a signature and
/// an account key; its id is its first signature in base58 and its sender the
/// first account key.
pub open spec fn decodes(tx: WireTxView) -> bool {
    spec_signatures_verify(tx) && tx.signatures.len() > 0 && tx.account_keys.len() > 0
}

/// The key at `idx` of the transaction, or `from`.
fn key_or(tx: &WireTransaction, idx: usize, from: &Pubkey) -> (r: Pubkey)
    ensures
        r == key_at(tx@, idx as int, *from),
{
    if idx < tx.account_keys.len() {
        tx.account_keys[idx]
    } else {
        *from
    }
}

/// The account index at `pos` of an instruction's account list, or 0.
fn index_or_zero(accounts: &Vec<u8>, pos: usize) -> (r: usize)
    ensures
        r as int == account_index(accounts@, pos as int),
{
    if pos < accounts.len() {
        accounts[pos] as usize
    } else {
        0
    }
}

/// Copies a byte vector.
fn copy_bytes(v: &Vec<u8>) -> (r: Vec<u8>)
    ensures
        r@ == v@,
{
    let r = v.clone();
    assert(r@ =~= v@);
    r
}

/// What the first instruction of `tx` asks for.
pub fn decode_kind(tx: &WireTransaction, from: &Pubkey) -> (r: TransactionKind)
    ensures
        r@ == spec_decode_kind(tx@, *from),
{
    if tx.instructions.len() == 0 {
        let empty: Vec<u8> = Vec::new();
        assert(empty@ =~= Seq::<u8>::empty());
        return TransactionKind::CustomInstruction { program_id: *from, data: empty };
    }
    let ix = &tx.instructions[0];
    assert(ix@ == tx@.instructions[0]);
    let data = &ix.data;
    if data.len() >= 12 {
        let tag = le_read(data.as_slice(), 0, 4);
        let amount = le_read(data.as_slice(), 4, 8);
        assert(data@.subrange(0, 4) =~= data@.take(4));
        if tag == SYSTEM_TRANSFER_DISCRIMINANT {
            let to = key_or(tx, index_or_zero(&ix.accounts, 1), from);
            return TransactionKind::Transfer { to, lamports: amount };
        }
        if tag == MINT_DISCRIMINANT {
            let to = key_or(tx, index_or_zero(&ix.accounts, 0), from);
            return TransactionKind::Mint { to, lamports: amount };
        }
        if tag == BURN_DISCRIMINANT {
            return TransactionKind::Burn { lamports: amount };
        }
    }
    let program_id = key_or(tx, ix.program_id_index as usize, from);
    TransactionKind::CustomInstruction { program_id, data: copy_bytes(data) }
}

/// The nonce `tx` carries.
pub fn extract_nonce(tx: &WireTransaction) -> (r: u64)
    ensures
        r == spec_extract_nonce(tx@),
{
    if tx.instructions.len() > 0 {
        let ix = &tx.instructions[0];
        assert(ix@ == tx@.instructions[0]);
        if ix.data.len() >= 20 {
            return le_read(ix.data.as_slice(), 12, 8);
        }
    }
    0
}

/// `t` is what `raw`, decoded as `w`, becomes: a pending transaction whose id is
/// its first signature in base58, whose sender is its first account key, and
/// whose kind and nonce come from its first instruction. (The time it was
/// received is the clock's.)
pub open spec fn decoded_from(t: TxView, w: WireTxView, raw: Seq<u8>) -> bool {
    &&& t.id == spec_signature_base58(w.signatures[0])
    &&& t.from == w.account_keys[0]
    &&& t.kind == spec_decode_kind(w, w.account_keys[0])
    &&& t.nonce == spec_extract_nonce(w)
    &&& t.raw == raw
    &&& t.status == StatusView::Pending
}

/// Turns a submitted transaction (and its raw bytes) into a pending L2
/// transaction, or refuses it as wrongly signed. Checking the signatures
/// encodes the message, so its lists must be short enough to encode (as every
/// decoded transaction's are).
pub fn decode_transaction(tx: &WireTransaction, raw: Vec<u8>) -> (r: Result<L2Transaction, ClutchError>)
    requires
        fits_short_vecs(tx@),
    ensures
        match r {
            Ok(t) => decodes(tx@) && decoded_from(t@, tx@, raw@),
            Err(e) => !decodes(tx@) && e == ClutchError::InvalidSignature,
        },
{
    if !verify_signatures(tx) {
        return Err(ClutchError::InvalidSignature);
    }
    if tx.signatures.len() == 0 {
        return Err(ClutchError::InvalidSignature);
    }
    let sig = signature_to_string(&tx.signatures[0]);
    if tx.account_keys.len() == 0 {
        return Err(ClutchError::InvalidSignature);
    }
    let from = tx.account_keys[0];
    let nonce = extract_nonce(tx);
    let kind = decode_kind(tx, &from);
    Ok(L2Transaction::new(sig, from, kind, nonce, raw))
}

/// `le_bytes` writes `n` bytes.
proof fn lemma_le_bytes_len(x: nat, n: nat)
    ensures
        le_bytes(x, n).len() == n,
    decreases n,
{
    if n > 0 {
        lemma_le_bytes_len(x / 256, (n - 1) as nat);
    }
}

/// Reading back the `n` little-endian bytes of a number below 256 to the `n`
/// gives the number.
proof fn lemma_le_value_of_bytes(x: nat, n: nat)
    requires
        x < pow256(n),
    ensures
        le_value(le_bytes(x, n)) == x,
    decreases n,
{
    if n > 0 {
        let m = (n - 1) as nat;
        assert(x == 256 * (x / 256) + x % 256);
        assert(x / 256 < pow256(m));
        lemma_le_value_of_bytes(x / 256, m);
        let b = le_bytes(x, n);
        assert(b.drop_first() =~= le_bytes(x / 256, m));
        assert(b[0] == (x % 256) as u8);
    }
}

/// The amount and nonce of a submitted transaction are read whole: when the
/// first instruction's data is a four-byte tag, then any `u64` amount `x` in
/// eight little-endian bytes, then any `u64` nonce `n` likewise (and anything
/// after), a transfer, mint or burn tag gives a transfer, mint or burn of exactly
/// `x` lamports, and the transaction carries nonce `n`.
pub proof fn law_amount_and_nonce_read_whole(tx: WireTxView, from: Pubkey, tag: u32, x: u64, n: u64, rest: Seq<u8>)
    requires
        tx.instructions.len() > 0,
        tx.instructions[0].data == le_bytes(tag as nat, 4) + spec_u64_le(x) + spec_u64_le(n) + rest,
    ensures
        tag == SYSTEM_TRANSFER_DISCRIMINANT ==> (spec_decode_kind(tx, from) matches KindView::Transfer { lamports, .. } && lamports == x),
        tag == MINT_DISCRIMINANT ==> (spec_decode_kind(tx, from) matches KindView::Mint { lamports, .. } && lamports == x),
        tag == BURN_DISCRIMINANT ==> (spec_decode_kind(tx, from) matches KindView::Burn { lamports } && lamports == x),
        spec_extract_nonce(tx) == n,
{
    let data = tx.instructions[0].data;
    let t4 = le_bytes(tag as nat, 4);
    let x8 = spec_u64_le(x);
    let n8 = spec_u64_le(n);
    lemma_le_bytes_len(tag as nat, 4);
    lemma_le_bytes_len(x as nat, 8);
    lemma_le_bytes_len(n as nat, 8);
    assert(pow256(4) == 0x1_0000_0000) by {
        reveal_with_fuel(pow256, 5);
    }
    assert(pow256(8) == 0x1_0000_0000_0000_0000) by {
        reveal_with_fuel(pow256, 9);
    }
    lemma_le_value_of_bytes(tag as nat, 4);
    lemma_le_value_of_bytes(x as nat, 8);
    lemma_le_value_of_bytes(n as nat, 8);
    assert(data.take(4) =~= t4);
    assert(data.subrange(4, 12) =~= x8);
    assert(data.subrange(12, 20) =~= n8);
}

} // verus!
